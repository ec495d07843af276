//! What holds of the runtime as a whole, proved from the contracts of
//! its parts.
use crate::codec::{
    bytes_encodable, bytes_list_encodable, dec_bytes, dec_bytes_list_items, dec_u64,
};
use crate::executor::{ExecutionOutcomeView, PromiseIdView, ReturnDataView};
use crate::ext::{
    lemma_find_receipt, spec_attach, spec_attachable, spec_awaited, spec_find_receipt, spec_flush,
    spec_new_ext, RuntimeExtView,
};
use crate::hash::{spec_hash, spec_nonce};
use crate::keys::{
    spec_account_key, spec_callback_key, spec_method_create_account, spec_method_deploy,
    spec_system_account, spec_tx_stake_key, COL_ACCOUNT, COL_CALLBACK, COL_CODE, COL_TX_STAKE,
};
use crate::mana::{spec_general, spec_try_charge_mana};
use crate::receipt_applier::{
    spec_apply_callback, spec_apply_receipt, spec_complete, spec_compose, spec_default_tx_stake,
    spec_dispatch_receipt, spec_filled, spec_finish_execution, spec_ran, spec_redeploy,
    spec_refund_receipt, spec_resume_receipt, PendingView,
};
use crate::records::{
    account_encodable, enc_callback, lemma_account_roundtrip, spec_decode_account,
    spec_decode_deploy_args, spec_decode_public_key, spec_get_account, spec_get_callback,
    spec_get_code, spec_get_tx_stake, spec_new_account, spec_set_account, spec_set_callback,
    spec_set_code, spec_set_tx_stake, AccountView,
};
use crate::routing::by_shard;
use crate::runtime::{
    spec_apply, spec_base, spec_flatten, spec_fresh, spec_is_result, spec_process_receipt,
    spec_process_transaction, spec_resume_processing, spec_walk_receipts, spec_walk_transactions,
    Advance, ApplyResult, ReceiptRun, RunView, Walk,
};
use crate::state::{lemma_diff_leads, overlay, spec_state_root, stored, StateDb, StateMap};
use crate::transaction::{SignedTransactionView, TransactionBodyView};
use crate::tx_applier::{spec_apply_signed_transaction, spec_dispatch, spec_without};
use crate::tx_stakes::TxTotalStake;
use crate::types::{
    views, AccountingInfoView, AuthorityStakeView, BlockIndex, CallbackInfoView,
    CallbackResultView, CallbackView, ReceiptBodyView, ReceiptView, ShardId, TransactionStatus,
};
use vstd::prelude::*;
use vstd::utf8::encode_utf8;

verus! {

// ---------------------------------------------------------------------------
// Keys and records
// ---------------------------------------------------------------------------
/// Two account ids with the same key in a column are the same id.
pub proof fn lemma_account_key_injective(col: u8, a: Seq<char>, b: Seq<char>)
    requires
        spec_account_key(col, a) == spec_account_key(col, b),
    ensures
        a == b,
{
    let ka = spec_account_key(col, a);
    let kb = spec_account_key(col, b);
    assert(encode_utf8(a) =~= ka.skip(1));
    assert(encode_utf8(b) =~= kb.skip(1));
    vstd::utf8::encode_utf8_decode_utf8(a);
    vstd::utf8::encode_utf8_decode_utf8(b);
}

/// Keys of different columns differ.
pub proof fn lemma_columns_apart(id: Seq<char>, other: Seq<char>, contract: Option<Seq<char>>, callback: Seq<u8>)
    ensures
        spec_account_key(COL_ACCOUNT, id) != spec_account_key(COL_CODE, other),
        spec_account_key(COL_ACCOUNT, id) != spec_tx_stake_key(other, contract),
        spec_account_key(COL_ACCOUNT, id) != spec_callback_key(callback),
        spec_callback_key(callback) != spec_account_key(COL_CODE, other),
        spec_callback_key(callback) != spec_tx_stake_key(other, contract),
{
    assert(spec_account_key(COL_ACCOUNT, id)[0] == COL_ACCOUNT);
    assert(spec_account_key(COL_CODE, other)[0] == COL_CODE);
    assert(spec_tx_stake_key(other, contract)[0] == COL_TX_STAKE);
    assert(spec_callback_key(callback)[0] == COL_CALLBACK);
}

proof fn lemma_decoded_items_encodable(s: Seq<u8>, n: nat)
    ensures
        dec_bytes_list_items(s, n) is Some ==> {
            let l = dec_bytes_list_items(s, n).unwrap().0;
            &&& l.len() == n
            &&& forall|i: int| 0 <= i < l.len() ==> bytes_encodable(#[trigger] l[i])
        },
    decreases n,
{
    if n > 0 {
        match dec_bytes(s) {
            Some((v, rest)) => {
                lemma_decoded_items_encodable(rest, (n - 1) as nat);
                if dec_bytes_list_items(rest, (n - 1) as nat) is Some {
                    let tail = dec_bytes_list_items(rest, (n - 1) as nat).unwrap().0;
                    let l = seq![v] + tail;
                    assert forall|i: int| 0 <= i < l.len() implies bytes_encodable(
                        #[trigger] l[i],
                    ) by {
                        if i > 0 {
                            assert(l[i] == tail[i - 1]);
                        }
                    }
                }
            },
            None => {},
        }
    }
}

/// An account that was decoded can be encoded again.
pub proof fn lemma_decoded_account_encodable(bytes: Seq<u8>)
    ensures
        spec_decode_account(bytes) is Some ==> account_encodable(
            spec_decode_account(bytes).unwrap(),
        ),
{
    match dec_u64(bytes) {
        Some((n, rest)) => {
            lemma_decoded_items_encodable(rest, n as nat);
        },
        None => {},
    }
}

/// An account that is in the state can be encoded again.
pub proof fn lemma_stored_account_encodable(state: StateMap, id: Seq<char>)
    ensures
        spec_get_account(state, id) is Some ==> account_encodable(
            spec_get_account(state, id).unwrap(),
        ),
{
    if state.contains_key(spec_account_key(COL_ACCOUNT, id)) {
        lemma_decoded_account_encodable(state[spec_account_key(COL_ACCOUNT, id)]);
    }
}

/// An account that was stored is read back as it was, and the accounts
/// under other ids are as they were.
pub proof fn lemma_account_stored(state: StateMap, id: Seq<char>, account: AccountView, other: Seq<char>)
    requires
        account_encodable(account),
    ensures
        spec_get_account(spec_set_account(state, id, account), id) == Some(account),
        other != id ==> spec_get_account(spec_set_account(state, id, account), other)
            == spec_get_account(state, other),
{
    lemma_account_roundtrip(account);
    if other != id && spec_account_key(COL_ACCOUNT, other) == spec_account_key(COL_ACCOUNT, id) {
        lemma_account_key_injective(COL_ACCOUNT, other, id);
    }
}

/// Writing a mana bucket or code leaves every account as it was.
pub proof fn lemma_accounts_untouched(
    state: StateMap,
    id: Seq<char>,
    info: AccountingInfoView,
    stake: TxTotalStake,
    owner: Seq<char>,
    code: Seq<u8>,
)
    ensures
        spec_get_account(spec_set_tx_stake(state, info, stake), id) == spec_get_account(state, id),
        spec_get_account(spec_set_code(state, owner, code), id) == spec_get_account(state, id),
{
    lemma_columns_apart(id, info.originator, info.contract_id, Seq::empty());
    lemma_columns_apart(id, owner, None, Seq::empty());
}

/// Charging mana leaves every account as it was.
pub proof fn lemma_charge_keeps_accounts(
    state: StateMap,
    block_index: BlockIndex,
    originator: Seq<char>,
    contract_id: Option<Seq<char>>,
    mana: u32,
    id: Seq<char>,
)
    ensures
        spec_try_charge_mana(state, block_index, originator, contract_id, mana) is Some
            ==> spec_get_account(
            spec_try_charge_mana(state, block_index, originator, contract_id, mana).unwrap().1,
            id,
        ) == spec_get_account(state, id),
{
    lemma_columns_apart(id, originator, contract_id, Seq::empty());
    lemma_columns_apart(id, originator, None, Seq::empty());
}

/// Removing a key from a list of encodable keys leaves encodable keys.
pub proof fn lemma_without_encodable(keys: Seq<Seq<u8>>, key: Seq<u8>)
    requires
        bytes_list_encodable(keys),
    ensures
        bytes_list_encodable(spec_without(keys, key)),
        spec_without(keys, key).len() <= keys.len(),
    decreases keys.len(),
{
    if keys.len() > 0 {
        let rest = keys.drop_last();
        assert(bytes_list_encodable(rest)) by {
            assert forall|i: int| 0 <= i < rest.len() implies bytes_encodable(#[trigger] rest[i]) by {
                assert(rest[i] == keys[i]);
            }
        }
        lemma_without_encodable(rest, key);
        let w = spec_without(rest, key);
        if keys.last() != key {
            let r = w.push(keys.last());
            assert forall|i: int| 0 <= i < r.len() implies bytes_encodable(#[trigger] r[i]) by {
                if i < w.len() {
                    assert(r[i] == w[i]);
                } else {
                    assert(r[i] == keys[keys.len() - 1]);
                }
            }
        }
    }
}

// ---------------------------------------------------------------------------
// Nonces of accounts
// ---------------------------------------------------------------------------
/// Nonce monotonicity. A transaction that is applied with success had a
/// nonce above that of its originator's account, and leaves the account
/// with the nonce of the transaction.
pub proof fn lemma_nonce_monotonic(
    state: StateMap,
    block_index: BlockIndex,
    body: TransactionBodyView,
    proposals: Seq<AuthorityStakeView>,
)
    requires
        spec_apply_signed_transaction(state, block_index, body, proposals).result is Ok,
    ensures
        spec_get_account(state, body.originator()) is Some,
        body.nonce() > spec_get_account(state, body.originator()).unwrap().nonce,
        spec_get_account(
            spec_apply_signed_transaction(state, block_index, body, proposals).state,
            body.originator(),
        ) is Some,
        spec_get_account(
            spec_apply_signed_transaction(state, block_index, body, proposals).state,
            body.originator(),
        ).unwrap().nonce == body.nonce(),
{
    reveal(spec_apply_signed_transaction);
    let id = body.originator();
    let found = spec_get_account(state, id).unwrap();
    lemma_stored_account_encodable(state, id);
    let sender = AccountView { nonce: body.nonce(), ..found };
    let noted = spec_set_account(state, id, sender);
    lemma_account_stored(state, id, sender, id);
    let charge = spec_try_charge_mana(noted, block_index, id, body.contract_id(), body.mana());
    lemma_charge_keeps_accounts(noted, block_index, id, body.contract_id(), body.mana(), id);
    let (info, charged) = charge.unwrap();
    let effect = spec_dispatch(charged, body, id, sender, info, body.mana(), proposals);
    match body {
        TransactionBodyView::SendMoney(t) => {
            lemma_account_stored(charged, id, effect.sender, id);
        },
        TransactionBodyView::Stake(t) => {
            lemma_account_stored(charged, id, effect.sender, id);
        },
        TransactionBodyView::FunctionCall(t) => {
            lemma_account_stored(charged, id, effect.sender, id);
        },
        TransactionBodyView::DeployContract(t) => {},
        TransactionBodyView::CreateAccount(t) => {
            lemma_account_stored(charged, id, effect.sender, id);
        },
        TransactionBodyView::SwapKey(t) => {
            lemma_without_encodable(sender.public_keys, t.cur_key);
            let kept = spec_without(sender.public_keys, t.cur_key);
            crate::tx_applier::lemma_without(sender.public_keys, t.cur_key);
            assert(bytes_list_encodable(kept.push(t.new_key))) by {
                let r = kept.push(t.new_key);
                assert forall|i: int| 0 <= i < r.len() implies bytes_encodable(#[trigger] r[i]) by {
                    if i < kept.len() {
                        assert(r[i] == kept[i]);
                    }
                }
            }
            lemma_account_stored(charged, id, effect.sender, id);
        },
    }
}

// ---------------------------------------------------------------------------
// Value
// ---------------------------------------------------------------------------
/// The amount that a receipt carries: that of a call or of a refund.
pub open spec fn spec_amount_of(receipt: ReceiptView) -> int {
    match receipt.body {
        ReceiptBodyView::NewCall(call) => call.amount as int,
        ReceiptBodyView::Refund(amount) => amount as int,
        _ => 0,
    }
}

/// The amount that a list of receipts carries.
pub open spec fn spec_carried(receipts: Seq<ReceiptView>) -> int
    decreases receipts.len(),
{
    if receipts.len() == 0 {
        0
    } else {
        spec_carried(receipts.drop_last()) + spec_amount_of(receipts.last())
    }
}

/// The value of an account: its balance and its stake; nothing, where
/// there is no account.
pub open spec fn spec_value(account: Option<AccountView>) -> int {
    match account {
        Some(a) => a.amount + a.staked,
        None => 0,
    }
}

/// A list with one more receipt carries what the list carried and what the receipt carries.
pub proof fn lemma_carried_push(receipts: Seq<ReceiptView>, receipt: ReceiptView)
    ensures
        spec_carried(receipts.push(receipt)) == spec_carried(receipts) + spec_amount_of(receipt),
{
    assert(receipts.push(receipt).drop_last() =~= receipts);
}

/// A list of one receipt carries what the receipt carries.
pub proof fn lemma_carried_one(receipt: ReceiptView)
    ensures
        spec_carried(seq![receipt]) == spec_amount_of(receipt),
{
    assert(seq![receipt].drop_last() =~= Seq::<ReceiptView>::empty());
    assert(seq![receipt] =~= Seq::<ReceiptView>::empty().push(receipt));
    lemma_carried_push(Seq::empty(), receipt);
}

/// A transaction touches no account but that of its originator.
pub proof fn lemma_transaction_touches_sender_only(
    state: StateMap,
    block_index: BlockIndex,
    body: TransactionBodyView,
    proposals: Seq<AuthorityStakeView>,
    other: Seq<char>,
)
    requires
        other != body.originator(),
    ensures
        spec_get_account(
            spec_apply_signed_transaction(state, block_index, body, proposals).state,
            other,
        ) == spec_get_account(state, other),
{
    reveal(spec_apply_signed_transaction);
    let id = body.originator();
    if spec_get_account(state, id) is Some {
        let found = spec_get_account(state, id).unwrap();
        lemma_stored_account_encodable(state, id);
        let sender = AccountView { nonce: body.nonce(), ..found };
        let noted = spec_set_account(state, id, sender);
        lemma_noted(state, id, sender, other);
        let charge = spec_try_charge_mana(noted, block_index, id, body.contract_id(), body.mana());
        lemma_charge_keeps_accounts(noted, block_index, id, body.contract_id(), body.mana(), other);
        if charge is Some {
            let (info, charged) = charge.unwrap();
            let effect = spec_dispatch(charged, body, id, sender, info, body.mana(), proposals);
            lemma_noted(charged, id, effect.sender, other);
        }
    }
}

/// Storing an account leaves the accounts under other ids as they were.
pub proof fn lemma_noted(state: StateMap, id: Seq<char>, account: AccountView, other: Seq<char>)
    requires
        other != id,
    ensures
        spec_get_account(spec_set_account(state, id, account), other) == spec_get_account(
            state,
            other,
        ),
{
    if spec_account_key(COL_ACCOUNT, other) == spec_account_key(COL_ACCOUNT, id) {
        lemma_account_key_injective(COL_ACCOUNT, other, id);
    }
}

/// Value conservation for transactions. A transaction that is applied
/// with success takes from the value of its originator's account what
/// the receipts that it sends carry, and nothing else.
pub proof fn lemma_transaction_conserves_value(
    state: StateMap,
    block_index: BlockIndex,
    body: TransactionBodyView,
    proposals: Seq<AuthorityStakeView>,
)
    requires
        spec_apply_signed_transaction(state, block_index, body, proposals).result is Ok,
    ensures
        spec_value(spec_get_account(state, body.originator())) == spec_value(
            spec_get_account(
                spec_apply_signed_transaction(state, block_index, body, proposals).state,
                body.originator(),
            ),
        ) + spec_carried(
            spec_apply_signed_transaction(state, block_index, body, proposals).result->Ok_0,
        ),
{
    reveal(spec_apply_signed_transaction);
    let id = body.originator();
    let found = spec_get_account(state, id).unwrap();
    lemma_stored_account_encodable(state, id);
    let sender = AccountView { nonce: body.nonce(), ..found };
    let noted = spec_set_account(state, id, sender);
    lemma_account_stored(state, id, sender, id);
    let charge = spec_try_charge_mana(noted, block_index, id, body.contract_id(), body.mana());
    lemma_charge_keeps_accounts(noted, block_index, id, body.contract_id(), body.mana(), id);
    let (info, charged) = charge.unwrap();
    let effect = spec_dispatch(charged, body, id, sender, info, body.mana(), proposals);
    let receipts = effect.result->Ok_0;
    if receipts.len() == 1 {
        assert(receipts =~= seq![receipts[0]]);
        lemma_carried_one(receipts[0]);
    }
    match body {
        TransactionBodyView::SendMoney(t) => {
            lemma_account_stored(charged, id, effect.sender, id);
        },
        TransactionBodyView::Stake(t) => {
            lemma_account_stored(charged, id, effect.sender, id);
        },
        TransactionBodyView::FunctionCall(t) => {
            lemma_account_stored(charged, id, effect.sender, id);
        },
        TransactionBodyView::DeployContract(t) => {},
        TransactionBodyView::CreateAccount(t) => {
            lemma_account_stored(charged, id, effect.sender, id);
        },
        TransactionBodyView::SwapKey(t) => {
            lemma_without_encodable(sender.public_keys, t.cur_key);
            let kept = spec_without(sender.public_keys, t.cur_key);
            crate::tx_applier::lemma_without(sender.public_keys, t.cur_key);
            assert(bytes_list_encodable(kept.push(t.new_key))) by {
                let r = kept.push(t.new_key);
                assert forall|i: int| 0 <= i < r.len() implies bytes_encodable(#[trigger] r[i]) by {
                    if i < kept.len() {
                        assert(r[i] == kept[i]);
                    }
                }
            }
            lemma_account_stored(charged, id, effect.sender, id);
        },
    }
}

/// The receipts whose value the runtime does not account for: a refund
/// to an account that does not exist or whose balance cannot hold it,
/// and a deployment that carries an amount to an account that exists
/// and takes the code.
pub open spec fn spec_loses_value(state: StateMap, receipt: ReceiptView) -> bool {
    match spec_get_account(state, receipt.receiver) {
        Some(receiver) => match receipt.body {
            ReceiptBodyView::Refund(amount) => receiver.amount + amount > u64::MAX,
            ReceiptBodyView::NewCall(call) => call.amount > 0 && call.method_name.len() > 0
                && call.method_name != spec_method_create_account() && call.method_name
                == spec_method_deploy() && spec_redeploy(
                state,
                call,
                receipt.receiver,
                receiver,
            ).result is Ok,
            _ => false,
        },
        None => match receipt.body {
            ReceiptBodyView::Refund(amount) => amount > 0,
            _ => false,
        },
    }
}

/// The state that a receipt applied without a run leaves when it is
/// settled: what it staged if it succeeded, and the state before if not.
pub open spec fn spec_settled(state: StateMap, receipt: ReceiptView, block_index: BlockIndex) -> StateMap {
    let outcome = spec_apply_receipt(state, receipt, Seq::empty(), block_index);
    if outcome.progress->Applied_0 is Ok {
        outcome.state
    } else {
        state
    }
}

/// Value conservation for receipts. A receipt that is applied without a
/// run adds to the value of its receiver's account what it carries, less
/// what the receipts that it sends carry. This holds of every receipt but
/// those of `spec_loses_value`.
pub proof fn lemma_receipt_conserves_value(state: StateMap, receipt: ReceiptView, block_index: BlockIndex)
    requires
        spec_apply_receipt(state, receipt, Seq::empty(), block_index).progress is Applied,
        !spec_loses_value(state, receipt),
    ensures
        spec_value(spec_get_account(spec_settled(state, receipt, block_index), receipt.receiver))
            + spec_carried(
            spec_apply_receipt(state, receipt, Seq::empty(), block_index).new_receipts,
        ) == spec_value(spec_get_account(state, receipt.receiver)) + spec_amount_of(receipt),
{
    reveal(spec_apply_receipt);
    let id = receipt.receiver;
    let outcome = spec_apply_receipt(state, receipt, Seq::empty(), block_index);
    let started = spec_dispatch_receipt(state, receipt, block_index);
    let d = started.step->Done_0;
    let empty = Seq::<ReceiptView>::empty();
    let sent = outcome.new_receipts;
    lemma_stored_account_encodable(state, id);
    // What the receipts sent carry.
    assert(spec_carried(sent) == match d.result {
        Ok(receipts) => spec_carried(receipts),
        Err(_) => d.amount as int,
    }) by {
        match d.result {
            Ok(receipts) => {
                assert(empty + receipts =~= receipts);
            },
            Err(_) => {
                let refunded = if d.amount > 0 {
                    empty.push(
                        spec_refund_receipt(
                            if d.receiver_exists {
                                receipt.receiver
                            } else {
                                spec_system_account()
                            },
                            receipt.originator,
                            receipt.nonce,
                            0,
                            d.amount,
                        ),
                    )
                } else {
                    empty
                };
                if d.amount > 0 {
                    lemma_carried_push(empty, refunded[0]);
                }
                if d.callback_info is Some {
                    lemma_carried_push(refunded, sent[sent.len() - 1]);
                }
            },
        }
    }
    match spec_get_account(state, id) {
        Some(receiver) => {
            match receipt.body {
                ReceiptBodyView::NewCall(call) => {
                    if call.method_name.len() == 0 {
                        if call.amount > 0 && receiver.amount + call.amount <= u64::MAX {
                            lemma_account_stored(
                                state,
                                id,
                                AccountView {
                                    amount: (receiver.amount + call.amount) as u64,
                                    ..receiver
                                },
                                id,
                            );
                        }
                    } else if call.method_name == spec_method_create_account() {
                        lemma_carried_one(
                            spec_refund_receipt(
                                spec_system_account(),
                                receipt.originator,
                                receipt.nonce,
                                0,
                                call.amount,
                            ),
                        );
                    } else if call.method_name == spec_method_deploy() {
                        if d.result is Ok {
                            let code = spec_decode_deploy_args(call.args).unwrap().1;
                            lemma_accounts_untouched(
                                state,
                                id,
                                spec_general(id),
                                TxTotalStake::spec_new(0),
                                id,
                                code,
                            );
                            lemma_account_stored(
                                spec_set_code(state, id, code),
                                id,
                                AccountView { code_hash: spec_hash(code), ..receiver },
                                id,
                            );
                        }
                    }
                },
                ReceiptBodyView::Callback(res) => {
                    lemma_columns_apart(id, Seq::empty(), None, res.info.id);
                },
                ReceiptBodyView::Refund(amount) => {
                    lemma_account_stored(
                        state,
                        id,
                        AccountView { amount: (receiver.amount + amount) as u64, ..receiver },
                        id,
                    );
                },
                ReceiptBodyView::ManaAccounting(accounting) => {
                    lemma_columns_apart(
                        id,
                        accounting.accounting_info.originator,
                        accounting.accounting_info.contract_id,
                        Seq::empty(),
                    );
                },
            }
        },
        None => {
            match receipt.body {
                ReceiptBodyView::NewCall(call) => {
                    if d.result is Ok {
                        if call.method_name == spec_method_create_account() {
                            let key = spec_decode_public_key(call.args).unwrap();
                            let account = spec_new_account(
                                seq![key],
                                call.amount,
                                spec_hash(Seq::empty()),
                            );
                            lemma_account_stored(state, id, account, id);
                            lemma_accounts_untouched(
                                spec_set_account(state, id, account),
                                id,
                                spec_general(id),
                                spec_default_tx_stake(),
                                id,
                                Seq::empty(),
                            );
                        } else {
                            let (key_bytes, code) = spec_decode_deploy_args(call.args).unwrap();
                            let key = spec_decode_public_key(key_bytes).unwrap();
                            let account = spec_new_account(seq![key], call.amount, spec_hash(code));
                            lemma_account_stored(state, id, account, id);
                            lemma_accounts_untouched(
                                spec_set_account(state, id, account),
                                id,
                                spec_general(id),
                                spec_default_tx_stake(),
                                id,
                                code,
                            );
                        }
                    }
                },
                _ => {},
            }
        },
    }
}

/// The value of the accounts `ids` together.
pub open spec fn spec_total(state: StateMap, ids: Seq<Seq<char>>) -> int
    decreases ids.len(),
{
    if ids.len() == 0 {
        0
    } else {
        spec_total(state, ids.drop_last()) + spec_value(spec_get_account(state, ids.last()))
    }
}

/// Between two states that differ in the account `id` at most, the value
/// of a set of accounts changes by what the value of `id` changes, if
/// `id` is among them, and not at all if it is not.
pub proof fn lemma_total_delta(before: StateMap, after: StateMap, ids: Seq<Seq<char>>, id: Seq<char>)
    requires
        ids.no_duplicates(),
        forall|other: Seq<char>|
            other != id ==> #[trigger] spec_get_account(after, other) == spec_get_account(
                before,
                other,
            ),
    ensures
        spec_total(after, ids) - spec_total(before, ids) == if ids.contains(id) {
            spec_value(spec_get_account(after, id)) - spec_value(spec_get_account(before, id))
        } else {
            0
        },
    decreases ids.len(),
{
    if ids.len() > 0 {
        let rest = ids.drop_last();
        let last = ids.last();
        assert(rest.no_duplicates()) by {
            assert forall|i: int, j: int| 0 <= i < rest.len() && 0 <= j < rest.len() && i != j implies rest[i]
                != rest[j] by {
                assert(rest[i] == ids[i] && rest[j] == ids[j]);
            }
        }
        lemma_total_delta(before, after, rest, id);
        if last == id {
            assert(ids.contains(id)) by {
                assert(ids[ids.len() - 1] == id);
            }
            if rest.contains(id) {
                let i = choose|i: int| 0 <= i < rest.len() && rest[i] == id;
                assert(ids[i] == id);
            }
        } else {
            if ids.contains(id) {
                let i = choose|i: int| 0 <= i < ids.len() && ids[i] == id;
                assert(rest[i] == id);
                assert(rest.contains(id));
            }
            if rest.contains(id) {
                let i = choose|i: int| 0 <= i < rest.len() && rest[i] == id;
                assert(ids[i] == id);
                assert(ids.contains(id));
            }
        }
    }
}

/// Value conservation over accounts, for transactions. A transaction
/// that is applied with success leaves the value of any set of accounts
/// that holds its originator as it was, less what its receipts carry.
pub proof fn lemma_transaction_conserves_total(
    state: StateMap,
    block_index: BlockIndex,
    body: TransactionBodyView,
    proposals: Seq<AuthorityStakeView>,
    ids: Seq<Seq<char>>,
)
    requires
        spec_apply_signed_transaction(state, block_index, body, proposals).result is Ok,
        ids.no_duplicates(),
        ids.contains(body.originator()),
    ensures
        spec_total(state, ids) == spec_total(
            spec_apply_signed_transaction(state, block_index, body, proposals).state,
            ids,
        ) + spec_carried(
            spec_apply_signed_transaction(state, block_index, body, proposals).result->Ok_0,
        ),
{
    reveal(spec_apply_signed_transaction);
    let after = spec_apply_signed_transaction(state, block_index, body, proposals).state;
    assert forall|other: Seq<char>| other != body.originator() implies #[trigger] spec_get_account(
        after,
        other,
    ) == spec_get_account(state, other) by {
        lemma_transaction_touches_sender_only(state, block_index, body, proposals, other);
    }
    lemma_total_delta(state, after, ids, body.originator());
    lemma_transaction_conserves_value(state, block_index, body, proposals);
}

/// Value conservation over accounts, for receipts. A receipt that is
/// applied without a run adds to the value of any set of accounts that
/// holds its receiver what it carries, less what the receipts that it
/// sends carry. This holds of every receipt but those of
/// `spec_loses_value`.
pub proof fn lemma_receipt_conserves_total(
    state: StateMap,
    receipt: ReceiptView,
    block_index: BlockIndex,
    ids: Seq<Seq<char>>,
)
    requires
        spec_apply_receipt(state, receipt, Seq::empty(), block_index).progress is Applied,
        !spec_loses_value(state, receipt),
        ids.no_duplicates(),
        ids.contains(receipt.receiver),
    ensures
        spec_total(spec_settled(state, receipt, block_index), ids) + spec_carried(
            spec_apply_receipt(state, receipt, Seq::empty(), block_index).new_receipts,
        ) == spec_total(state, ids) + spec_amount_of(receipt),
{
    reveal(spec_apply_receipt);
    let after = spec_settled(state, receipt, block_index);
    assert forall|other: Seq<char>| other != receipt.receiver implies #[trigger] spec_get_account(
        after,
        other,
    ) == spec_get_account(state, other) by {
        lemma_receipt_touches_receiver_only(state, receipt, block_index, other);
    }
    lemma_total_delta(state, after, ids, receipt.receiver);
    lemma_receipt_conserves_value(state, receipt, block_index);
}

/// Value after a run. A receipt that succeeds after its run leaves the
/// account that ran the method with the balance that the run reported,
/// and otherwise as it was when the run began: what a run does to the
/// value of its account is what the executor says of it.
pub proof fn lemma_run_accounts_for_balance(
    staged: StateMap,
    committed: StateMap,
    receipt: ReceiptView,
    pending: PendingView,
    outcome: Result<ExecutionOutcomeView, Seq<char>>,
)
    requires
        account_encodable(pending.receiver),
        spec_resume_receipt(staged, committed, receipt, pending, outcome, Seq::empty()).result is Ok,
    ensures
        outcome is Ok,
        spec_get_account(
            spec_resume_receipt(staged, committed, receipt, pending, outcome, Seq::empty()).state,
            pending.request.context.account_id,
        ) == Some(AccountView { amount: outcome->Ok_0.balance, ..pending.receiver }),
{
    let ran = spec_ran(pending, staged, outcome);
    let account = AccountView { amount: outcome->Ok_0.balance, ..pending.receiver };
    let id = pending.request.context.account_id;
    match pending.callback_id {
        None => {
            lemma_account_stored(ran.state, id, account, id);
        },
        Some(callback) => {
            lemma_account_stored(ran.state.remove(spec_callback_key(callback)), id, account, id);
        },
    }
}

// ---------------------------------------------------------------------------
// Failing inputs
// ---------------------------------------------------------------------------
/// Rollback isolation for transactions. A transaction that fails leaves
/// the state, and so its root, the receipts sent and the stake
/// proposals as they were: only its result is recorded.
pub proof fn lemma_failed_transaction_changes_nothing(
    run: RunView,
    block_index: BlockIndex,
    transaction: SignedTransactionView,
)
    requires
        spec_apply_signed_transaction(
            run.state,
            block_index,
            transaction.body,
            run.proposals,
        ).result is Err,
    ensures
        spec_process_transaction(run, block_index, transaction).state == run.state,
        spec_state_root(spec_process_transaction(run, block_index, transaction).state)
            == spec_state_root(run.state),
        spec_process_transaction(run, block_index, transaction).new_receipts == run.new_receipts,
        spec_process_transaction(run, block_index, transaction).proposals == run.proposals,
        spec_process_transaction(run, block_index, transaction).tx_result.len()
            == run.tx_result.len() + 1,
        spec_process_transaction(run, block_index, transaction).tx_result.last().status
            == TransactionStatus::Failed,
{
    reveal(spec_apply_signed_transaction);
}

/// Rollback isolation for receipts. A receipt that fails without a run
/// leaves the state, and so its root, as it was.
pub proof fn lemma_failed_receipt_changes_nothing(
    run: RunView,
    shard_id: ShardId,
    block_index: BlockIndex,
    receipt: ReceiptView,
)
    requires
        spec_process_receipt(run, shard_id, block_index, receipt) is Through,
        spec_process_receipt(run, shard_id, block_index, receipt)->Through_0.tx_result.last().status
            == TransactionStatus::Failed,
    ensures
        spec_process_receipt(run, shard_id, block_index, receipt)->Through_0.state == run.state,
        spec_state_root(spec_process_receipt(run, shard_id, block_index, receipt)->Through_0.state)
            == spec_state_root(run.state),
{
    reveal(spec_apply_receipt);
}

/// Rollback isolation for runs. A receipt that fails after its run leaves
/// the state as it was, but for this: where the run was that of a
/// callback, the callback has left the state.
pub proof fn lemma_failed_run_changes_nothing(
    run: RunView,
    staged: StateMap,
    receipt: ReceiptView,
    pending: PendingView,
    outcome: Result<ExecutionOutcomeView, Seq<char>>,
)
    requires
        spec_resume_processing(run, staged, receipt, pending, outcome).tx_result.last().status
            == TransactionStatus::Failed,
    ensures
        spec_resume_processing(run, staged, receipt, pending, outcome).state == match pending.callback_id {
            None => run.state,
            Some(id) => run.state.remove(spec_callback_key(id)),
        },
{
}

// ---------------------------------------------------------------------------
// Identifiers of receipts
// ---------------------------------------------------------------------------
/// Every receipt of the list carries the identifier whose number under
/// `parent` is its place in the list.
pub open spec fn spec_numbered(receipts: Seq<ReceiptView>, parent: Seq<u8>) -> bool {
    forall|i: int|
        0 <= i < receipts.len() ==> (#[trigger] receipts[i]).nonce == spec_nonce(parent, i as u64)
}

/// Nonce derivation for transactions. The receipts that a transaction
/// sends carry the identifiers derived from the hash of the transaction,
/// numbered from 0 in their order.
pub proof fn lemma_transaction_nonces(
    state: StateMap,
    block_index: BlockIndex,
    body: TransactionBodyView,
    proposals: Seq<AuthorityStakeView>,
)
    requires
        spec_apply_signed_transaction(state, block_index, body, proposals).result is Ok,
    ensures
        spec_numbered(
            spec_apply_signed_transaction(state, block_index, body, proposals).result->Ok_0,
            body.hash(),
        ),
{
    reveal(spec_apply_signed_transaction);
}

/// Nonce derivation for receipts. The receipts that a receipt sends
/// without a run carry the identifiers derived from its own, numbered
/// from 0 in their order.
pub proof fn lemma_receipt_nonces(state: StateMap, receipt: ReceiptView, block_index: BlockIndex)
    requires
        spec_apply_receipt(state, receipt, Seq::empty(), block_index).progress is Applied,
    ensures
        spec_numbered(
            spec_apply_receipt(state, receipt, Seq::empty(), block_index).new_receipts,
            receipt.nonce,
        ),
{
    reveal(spec_apply_receipt);
    let started = spec_dispatch_receipt(state, receipt, block_index);
    let d = started.step->Done_0;
    match d.result {
        Ok(receipts) => {
            assert(Seq::<ReceiptView>::empty() + receipts =~= receipts);
        },
        Err(e) => {},
    }
}

// ---------------------------------------------------------------------------
// Callbacks
// ---------------------------------------------------------------------------
/// Writing callbacks to the state takes no key out of it.
pub proof fn lemma_flush_keeps(state: StateMap, callbacks: Seq<(Seq<u8>, CallbackView)>, key: Seq<u8>)
    requires
        state.contains_key(key),
    ensures
        spec_flush(state, callbacks).contains_key(key),
    decreases callbacks.len(),
{
    if callbacks.len() > 0 {
        lemma_flush_keeps(state, callbacks.drop_last(), key);
    }
}

/// Callback completion, first part. A result that arrives for a
/// callback leads to a run exactly if the receiver has code, the
/// callback is in the state and has the slot, and all its results are
/// then in. A callback that still waits is stored with the result in
/// its slot.
pub proof fn lemma_callback_waits(
    state: StateMap,
    res: CallbackResultView,
    receipt: ReceiptView,
    receiver: AccountView,
    block_index: BlockIndex,
)
    ensures
        spec_apply_callback(state, res, receipt, receiver, block_index).step is Run <==> {
            &&& spec_get_code(state, receipt.receiver) is Some
            &&& spec_get_callback(state, res.info.id) is Some
            &&& res.info.result_index < spec_get_callback(state, res.info.id).unwrap().results.len()
            &&& spec_complete(
                spec_filled(
                    spec_get_callback(state, res.info.id).unwrap(),
                    res.info.result_index,
                    res.result,
                ),
            )
        },
        spec_apply_callback(state, res, receipt, receiver, block_index).step is Done
            && spec_apply_callback(
            state,
            res,
            receipt,
            receiver,
            block_index,
        ).step->Done_0.result is Ok ==> stored(
            spec_apply_callback(state, res, receipt, receiver, block_index).state,
            spec_callback_key(res.info.id),
        ) == Some(
            enc_callback(
                spec_filled(
                    spec_get_callback(state, res.info.id).unwrap(),
                    res.info.result_index,
                    res.result,
                ),
            ),
        ),
{
}

/// Callback completion, second part. However the run of a callback
/// ends, the callback has left the state when its receipt is settled.
pub proof fn lemma_dispatched_callback_leaves(
    run: RunView,
    staged: StateMap,
    receipt: ReceiptView,
    pending: PendingView,
    outcome: Result<ExecutionOutcomeView, Seq<char>>,
)
    requires
        pending.callback_id is Some,
    ensures
        !spec_resume_processing(run, staged, receipt, pending, outcome).state.contains_key(
            spec_callback_key(pending.callback_id.unwrap()),
        ),
{
    lemma_columns_apart(
        pending.request.context.account_id,
        Seq::empty(),
        None,
        pending.callback_id.unwrap(),
    );
}

/// Callback completion, third part. A receipt that is processed without
/// a run takes no key out of the state.
pub proof fn lemma_receipt_deletes_nothing(
    run: RunView,
    shard_id: ShardId,
    block_index: BlockIndex,
    receipt: ReceiptView,
    key: Seq<u8>,
)
    requires
        spec_process_receipt(run, shard_id, block_index, receipt) is Through,
        run.state.contains_key(key),
    ensures
        spec_process_receipt(run, shard_id, block_index, receipt)->Through_0.state.contains_key(key),
{
    reveal(spec_apply_receipt);
}

/// Callback completion, fourth part. A transaction takes no key out of
/// the state.
pub proof fn lemma_transaction_deletes_nothing(
    run: RunView,
    block_index: BlockIndex,
    transaction: SignedTransactionView,
    key: Seq<u8>,
)
    requires
        run.state.contains_key(key),
    ensures
        spec_process_transaction(run, block_index, transaction).state.contains_key(key),
{
    reveal(spec_apply_signed_transaction);
}

/// Callback completion, fifth part. The run of a call takes no key out
/// of the state, where the run itself took none out.
pub proof fn lemma_call_run_deletes_nothing(
    run: RunView,
    staged: StateMap,
    receipt: ReceiptView,
    pending: PendingView,
    outcome: Result<ExecutionOutcomeView, Seq<char>>,
    key: Seq<u8>,
)
    requires
        pending.callback_id is None,
        run.state.contains_key(key),
        staged.contains_key(key),
    ensures
        spec_resume_processing(run, staged, receipt, pending, outcome).state.contains_key(key),
{
    lemma_flush_keeps(staged, pending.ext.callbacks, key);
    if outcome is Ok && outcome->Ok_0.return_data is Ok && pending.awaiting is Some {
        let info = pending.awaiting.unwrap();
        match outcome->Ok_0.return_data->Ok_0 {
            ReturnDataView::Promise(PromiseIdView::Callback(id)) => {
                lemma_flush_keeps(staged, pending.ext.await_callback(id, info).0.callbacks, key);
            },
            ReturnDataView::Promise(PromiseIdView::Receipt(id)) => {
                lemma_flush_keeps(staged, pending.ext.await_receipt(id, info).0.callbacks, key);
            },
            _ => {},
        }
    }
}

// ---------------------------------------------------------------------------
// Identifiers of the receipts of a run
// ---------------------------------------------------------------------------
/// `nonce` is one of the identifiers derived from `parent`.
pub open spec fn spec_derived(nonce: Seq<u8>, parent: Seq<u8>) -> bool {
    exists|k: u64| nonce == #[trigger] spec_nonce(parent, k)
}

/// Every receipt of the list carries an identifier derived from `parent`.
pub open spec fn spec_all_derived(receipts: Seq<ReceiptView>, parent: Seq<u8>) -> bool {
    forall|i: int| 0 <= i < receipts.len() ==> spec_derived((#[trigger] receipts[i]).nonce, parent)
}

/// The bridge of a run starts without receipts, and each call that the
/// method creates carries an identifier derived from the receipt that is
/// applied.
pub proof fn lemma_created_derived(
    ext: RuntimeExtView,
    account_id: Seq<char>,
    method_name: Seq<u8>,
    arguments: Seq<u8>,
    mana: u32,
    amount: u64,
)
    requires
        spec_all_derived(ext.receipts, ext.transaction_hash),
    ensures
        spec_all_derived(
            ext.promise_create(account_id, method_name, arguments, mana, amount).receipts,
            ext.transaction_hash,
        ),
        spec_all_derived(
            spec_new_ext(account_id, ext.accounting_info, ext.transaction_hash).receipts,
            ext.transaction_hash,
        ),
{
    let after = ext.promise_create(account_id, method_name, arguments, mana, amount).receipts;
    assert forall|i: int| 0 <= i < after.len() implies spec_derived(
        (#[trigger] after[i]).nonce,
        ext.transaction_hash,
    ) by {
        if i < ext.receipts.len() {
            assert(after[i] == ext.receipts[i]);
        } else {
            assert(after[i].nonce == spec_nonce(ext.transaction_hash, ext.nonce));
        }
    }
}

/// Attaching callbacks to receipts leaves their identifiers as they are.
pub proof fn lemma_attach_derived(
    receipts: Seq<ReceiptView>,
    ids: Seq<Seq<u8>>,
    from: int,
    callback_id: Seq<u8>,
    account_id: Seq<char>,
    parent: Seq<u8>,
)
    requires
        spec_all_derived(receipts, parent),
    ensures
        spec_all_derived(spec_attach(receipts, ids, from, callback_id, account_id).0, parent),
    decreases ids.len() - from,
{
    if 0 <= from < ids.len() {
        let at = spec_find_receipt(receipts, ids[from]);
        lemma_find_receipt(receipts, ids[from]);
        if spec_attachable(receipts, at) is Ok {
            let info = CallbackInfoView {
                id: callback_id,
                result_index: from as u64,
                receiver: account_id,
            };
            let next = receipts.update(at, spec_awaited(receipts[at], info));
            assert forall|i: int| 0 <= i < next.len() implies spec_derived(
                (#[trigger] next[i]).nonce,
                parent,
            ) by {
                assert(next[i].nonce == receipts[i].nonce);
            }
            lemma_attach_derived(next, ids, from + 1, callback_id, account_id, parent);
        }
    }
}

/// A callback that the method registers leaves the identifiers of the
/// method's receipts as they are.
pub proof fn lemma_then_derived(
    ext: RuntimeExtView,
    promise: PromiseIdView,
    method_name: Seq<u8>,
    arguments: Seq<u8>,
    mana: u32,
)
    requires
        spec_all_derived(ext.receipts, ext.transaction_hash),
    ensures
        spec_all_derived(
            ext.promise_then(promise, method_name, arguments, mana).0.receipts,
            ext.transaction_hash,
        ),
{
    match RuntimeExtView::awaited_ids(promise) {
        Some(ids) => {
            lemma_attach_derived(
                ext.receipts,
                ids,
                0,
                ext.next_id(),
                ext.account_id,
                ext.transaction_hash,
            );
        },
        None => {},
    }
}

/// Nonce derivation for runs. Where the receipts that a method created
/// carry identifiers derived from that of the receipt applied, so does
/// every receipt that the receipt sends after the run.
pub proof fn lemma_run_nonces(
    staged: StateMap,
    committed: StateMap,
    receipt: ReceiptView,
    pending: PendingView,
    outcome: Result<ExecutionOutcomeView, Seq<char>>,
)
    requires
        pending.ext.transaction_hash == receipt.nonce,
        spec_all_derived(pending.ext.receipts, receipt.nonce),
    ensures
        spec_all_derived(
            spec_resume_receipt(
                staged,
                committed,
                receipt,
                pending,
                outcome,
                Seq::empty(),
            ).new_receipts,
            receipt.nonce,
        ),
{
    let fin = spec_finish_execution(staged, committed, pending, outcome);
    let d = fin.dispatched;
    let parent = receipt.nonce;
    let empty = Seq::<ReceiptView>::empty();
    // The receipts of the run itself.
    let first: Seq<ReceiptView> = match d.result {
        Ok(receipts) => receipts,
        Err(_) => empty,
    };
    assert(spec_all_derived(first, parent)) by {
        if d.result is Ok {
            let ext = pending.ext;
            let data = outcome->Ok_0.return_data->Ok_0;
            match pending.awaiting {
                None => {},
                Some(info) => {
                    match data {
                        ReturnDataView::Promise(PromiseIdView::Receipt(id)) => {
                            let at = spec_find_receipt(ext.receipts, id);
                            lemma_find_receipt(ext.receipts, id);
                            let next = ext.await_receipt(id, info).0.receipts;
                            assert forall|i: int| 0 <= i < first.len() implies spec_derived(
                                (#[trigger] first[i]).nonce,
                                parent,
                            ) by {
                                assert(first[i].nonce == ext.receipts[i].nonce);
                            }
                        },
                        ReturnDataView::Promise(_) => {},
                        _ => {
                            assert forall|i: int| 0 <= i < first.len() implies spec_derived(
                                (#[trigger] first[i]).nonce,
                                parent,
                            ) by {
                                if i < ext.receipts.len() {
                                    assert(first[i] == ext.receipts[i]);
                                } else {
                                    assert(first[i].nonce == spec_nonce(parent, ext.nonce));
                                }
                            }
                        },
                    }
                },
            }
        }
    }
    let sent = spec_compose(receipt, d, empty).0;
    assert forall|i: int| 0 <= i < sent.len() implies spec_derived(
        (#[trigger] sent[i]).nonce,
        parent,
    ) by {
        if d.result is Ok {
            assert(empty + first =~= first);
            if i < first.len() {
                assert(sent[i] == first[i]);
            } else {
                assert(sent[i].nonce == spec_nonce(parent, i as u64));
            }
        } else {
            assert(sent[i].nonce == spec_nonce(parent, i as u64));
        }
    }
}

// ---------------------------------------------------------------------------
// Determinism
// ---------------------------------------------------------------------------
/// Determinism. Two databases that hold the same key/value set have
/// the same root, and an apply step on the two, with the same inputs,
/// comes to the same point: the same run finished, or the same receipt
/// waiting for the same method.
pub proof fn lemma_apply_deterministic(
    db1: &StateDb,
    db2: &StateDb,
    root: Seq<u8>,
    shard_id: ShardId,
    block_index: BlockIndex,
    prev_receipts: Seq<Seq<ReceiptView>>,
    transactions: Seq<SignedTransactionView>,
)
    requires
        db1.wf(),
        db2.wf(),
        db1@ == db2@,
    ensures
        db1.spec_root() == db2.spec_root(),
        spec_apply(db1, root, shard_id, block_index, prev_receipts, transactions) == spec_apply(
            db2,
            root,
            shard_id,
            block_index,
            prev_receipts,
            transactions,
        ),
{
    db1.lemma_root();
    db2.lemma_root();
}

/// Determinism of the result. Two results of the same finished run
/// agree on the root, on the changes to commit, and on what was sent,
/// proposed and recorded.
pub proof fn lemma_result_deterministic(
    r1: &ApplyResult,
    r2: &ApplyResult,
    run: RunView,
    shard_id: ShardId,
    opened_root: Seq<u8>,
    base: StateMap,
)
    requires
        spec_is_result(r1, run, shard_id, opened_root, base),
        spec_is_result(r2, run, shard_id, opened_root, base),
    ensures
        r1.root@ == r2.root@,
        r1.shard_id == r2.shard_id,
        r1.db_changes.base_root() == r2.db_changes.base_root(),
        r1.db_changes.changes() == r2.db_changes.changes(),
        views(r1.authority_proposals@) == views(r2.authority_proposals@),
        by_shard(r1.new_receipts@) == by_shard(r2.new_receipts@),
        views(r1.tx_result@) == views(r2.tx_result@),
{
}

// ---------------------------------------------------------------------------
// One result per input
// ---------------------------------------------------------------------------
/// Every transaction that is processed adds one result.
pub proof fn lemma_results_of_transactions(
    run: RunView,
    transactions: Seq<SignedTransactionView>,
    from: int,
    block_index: BlockIndex,
)
    requires
        0 <= from <= transactions.len(),
    ensures
        spec_walk_transactions(run, transactions, from, block_index).tx_result.len()
            == run.tx_result.len() + transactions.len() - from,
    decreases transactions.len() - from,
{
    reveal(spec_apply_signed_transaction);
    if from < transactions.len() {
        lemma_results_of_transactions(
            spec_process_transaction(run, block_index, transactions[from]),
            transactions,
            from + 1,
            block_index,
        );
    }
}

/// Every receipt that is processed adds one result: where the walk
/// through the receipts stops for a run, there is one result for each
/// receipt before that one, and where it gets through, one for each.
pub proof fn lemma_results_of_receipts(
    run: RunView,
    receipts: Seq<ReceiptView>,
    from: int,
    shard_id: ShardId,
    block_index: BlockIndex,
)
    requires
        0 <= from <= receipts.len(),
    ensures
        match spec_walk_receipts(run, receipts, from, shard_id, block_index) {
            Walk::Through(after) => after.tx_result.len() == run.tx_result.len() + receipts.len()
                - from,
            Walk::Suspended { run: before, at, pending } => from <= at < receipts.len()
                && before.tx_result.len() == run.tx_result.len() + at - from,
            Walk::Fatal { at, error } => from <= at < receipts.len(),
        },
    decreases receipts.len() - from,
{
    reveal(spec_apply_receipt);
    if from < receipts.len() {
        match spec_process_receipt(run, shard_id, block_index, receipts[from]) {
            ReceiptRun::Through(next) => {
                lemma_results_of_receipts(next, receipts, from + 1, shard_id, block_index);
            },
            ReceiptRun::Suspended(_) => {},
            ReceiptRun::Fatal(_) => {},
        }
    }
}

/// An apply step that finishes without a run records one result for
/// each of its inputs: the receipts first, then the transactions.
pub proof fn lemma_one_result_per_input(
    db: &StateDb,
    root: Seq<u8>,
    shard_id: ShardId,
    block_index: BlockIndex,
    prev_receipts: Seq<Seq<ReceiptView>>,
    transactions: Seq<SignedTransactionView>,
)
    ensures
        match spec_apply(db, root, shard_id, block_index, prev_receipts, transactions) {
            Advance::Finished(run) => run.tx_result.len() == spec_flatten(prev_receipts).len()
                + transactions.len(),
            Advance::Suspended(session) => session.run.tx_result.len() == session.at,
            Advance::Aborted(_) => true,
        },
{
    let start = spec_fresh(spec_base(db, root));
    let receipts = spec_flatten(prev_receipts);
    lemma_results_of_receipts(start, receipts, 0, shard_id, block_index);
    match spec_walk_receipts(start, receipts, 0, shard_id, block_index) {
        Walk::Through(after) => {
            lemma_results_of_transactions(after, transactions, 0, block_index);
        },
        Walk::Suspended { .. } => {},
        Walk::Fatal { .. } => {},
    }
}

// ---------------------------------------------------------------------------
// The database after an apply step
// ---------------------------------------------------------------------------
/// The result of an apply step on the root of the database `db` leads
/// `db` to the state that the step came to: the changes of the result
/// were made over the root of `db`, so `db` takes them, and it then
/// holds that state, whose root is the root of the result.
pub proof fn lemma_commit_reaches_root(
    db: &StateDb,
    result: &ApplyResult,
    run: RunView,
    shard_id: ShardId,
)
    requires
        db.wf(),
        spec_is_result(result, run, shard_id, db.spec_root(), db@),
    ensures
        result.db_changes.base_root() == db.spec_root(),
        overlay(db@, result.db_changes.changes()) == run.state,
        result.root@ == spec_state_root(run.state),
{
    lemma_diff_leads(db@, run.state);
}

// ---------------------------------------------------------------------------
// Code and its hash
// ---------------------------------------------------------------------------
/// The code of an account: what is stored as its code, and the empty
/// code where nothing is.
pub open spec fn spec_code_of(state: StateMap, id: Seq<char>) -> Seq<u8> {
    match spec_get_code(state, id) {
        Some(code) => code,
        None => Seq::empty(),
    }
}

/// Every account holds the hash of its code, and only accounts have code.
pub open spec fn spec_code_consistent(state: StateMap) -> bool {
    forall|id: Seq<char>|
        match #[trigger] spec_get_account(state, id) {
            Some(account) => account.code_hash == spec_hash(spec_code_of(state, id)),
            None => spec_get_code(state, id) is None,
        }
}

/// Storing an account, a mana bucket or a callback leaves all code as it
/// was, and storing code leaves other code as it was.
pub proof fn lemma_code_untouched(
    state: StateMap,
    id: Seq<char>,
    owner: Seq<char>,
    account: AccountView,
    info: AccountingInfoView,
    stake: TxTotalStake,
    callback_id: Seq<u8>,
    callback: CallbackView,
    code: Seq<u8>,
)
    ensures
        spec_get_code(spec_set_account(state, owner, account), id) == spec_get_code(state, id),
        spec_get_code(spec_set_tx_stake(state, info, stake), id) == spec_get_code(state, id),
        spec_get_code(spec_set_callback(state, callback_id, callback), id) == spec_get_code(
            state,
            id,
        ),
        spec_get_account(spec_set_callback(state, callback_id, callback), id)
            == spec_get_account(state, id),
        id != owner ==> spec_get_code(spec_set_code(state, owner, code), id) == spec_get_code(
            state,
            id,
        ),
        code.len() <= u64::MAX ==> spec_get_code(spec_set_code(state, owner, code), owner)
            == Some(code),
{
    lemma_columns_apart(owner, id, None, callback_id);
    lemma_columns_apart(id, id, info.contract_id, callback_id);
    assert(spec_account_key(COL_CODE, id)[0] == COL_CODE);
    assert(spec_tx_stake_key(info.originator, info.contract_id)[0] == COL_TX_STAKE);
    if id != owner && spec_account_key(COL_CODE, id) == spec_account_key(COL_CODE, owner) {
        lemma_account_key_injective(COL_CODE, id, owner);
    }
    if code.len() <= u64::MAX {
        crate::records::lemma_blob_roundtrip(code);
    }
}

/// Charging mana leaves all code as it was.
pub proof fn lemma_charge_keeps_code(
    state: StateMap,
    block_index: BlockIndex,
    originator: Seq<char>,
    contract_id: Option<Seq<char>>,
    mana: u32,
    id: Seq<char>,
)
    ensures
        spec_try_charge_mana(state, block_index, originator, contract_id, mana) is Some
            ==> spec_get_code(
            spec_try_charge_mana(state, block_index, originator, contract_id, mana).unwrap().1,
            id,
        ) == spec_get_code(state, id),
{
    assert(spec_account_key(COL_CODE, id)[0] == COL_CODE);
    assert(spec_tx_stake_key(originator, contract_id)[0] == COL_TX_STAKE);
    assert(spec_tx_stake_key(originator, None)[0] == COL_TX_STAKE);
}

/// A transaction leaves all code as it was, and the hash of the code in
/// every account.
pub proof fn lemma_transaction_keeps_code_hashes(
    state: StateMap,
    block_index: BlockIndex,
    body: TransactionBodyView,
    proposals: Seq<AuthorityStakeView>,
)
    requires
        spec_code_consistent(state),
    ensures
        spec_code_consistent(
            spec_apply_signed_transaction(state, block_index, body, proposals).state,
        ),
{
    reveal(spec_apply_signed_transaction);
    let after = spec_apply_signed_transaction(state, block_index, body, proposals).state;
    assert forall|id: Seq<char>|
        match #[trigger] spec_get_account(after, id) {
            Some(account) => account.code_hash == spec_hash(spec_code_of(after, id)),
            None => spec_get_code(after, id) is None,
        } by {
        lemma_transaction_keeps(state, block_index, body, proposals, id);
    }
}

/// What a transaction leaves of an account and of its code: the code as
/// it was, the account there if and only if it was, and with the hash
/// that it had.
pub proof fn lemma_transaction_keeps(
    state: StateMap,
    block_index: BlockIndex,
    body: TransactionBodyView,
    proposals: Seq<AuthorityStakeView>,
    id: Seq<char>,
)
    ensures
        spec_get_code(spec_apply_signed_transaction(state, block_index, body, proposals).state, id)
            == spec_get_code(state, id),
        spec_get_account(
            spec_apply_signed_transaction(state, block_index, body, proposals).state,
            id,
        ) is Some == spec_get_account(state, id) is Some,
        spec_get_account(state, id) is Some ==> spec_get_account(
            spec_apply_signed_transaction(state, block_index, body, proposals).state,
            id,
        ).unwrap().code_hash == spec_get_account(state, id).unwrap().code_hash,
{
    reveal(spec_apply_signed_transaction);
    let sender_id = body.originator();
    let empty_callback = CallbackView {
        method_name: Seq::empty(),
        args: Seq::empty(),
        results: Seq::empty(),
        mana: 0,
        callback: None,
        result_counter: 0,
        accounting_info: spec_general(Seq::empty()),
    };
    if id != sender_id {
        lemma_transaction_touches_sender_only(state, block_index, body, proposals, id);
    }
    if spec_get_account(state, sender_id) is Some {
        let found = spec_get_account(state, sender_id).unwrap();
        lemma_stored_account_encodable(state, sender_id);
        let sender = AccountView { nonce: body.nonce(), ..found };
        let noted = spec_set_account(state, sender_id, sender);
        lemma_account_stored(state, sender_id, sender, sender_id);
        lemma_code_untouched(
            state,
            id,
            sender_id,
            sender,
            spec_general(sender_id),
            TxTotalStake::spec_new(0),
            Seq::empty(),
            empty_callback,
            Seq::empty(),
        );
        let charge = spec_try_charge_mana(
            noted,
            block_index,
            sender_id,
            body.contract_id(),
            body.mana(),
        );
        lemma_charge_keeps_accounts(
            noted,
            block_index,
            sender_id,
            body.contract_id(),
            body.mana(),
            sender_id,
        );
        lemma_charge_keeps_code(noted, block_index, sender_id, body.contract_id(), body.mana(), id);
        if charge is Some {
            let (info, charged) = charge.unwrap();
            let effect = spec_dispatch(charged, body, sender_id, sender, info, body.mana(), proposals);
            lemma_code_untouched(
                charged,
                id,
                sender_id,
                effect.sender,
                spec_general(sender_id),
                TxTotalStake::spec_new(0),
                Seq::empty(),
                empty_callback,
                Seq::empty(),
            );
            match body {
                TransactionBodyView::SwapKey(t) => {
                    if effect.result is Ok {
                        lemma_without_encodable(sender.public_keys, t.cur_key);
                        let kept = spec_without(sender.public_keys, t.cur_key);
                        crate::tx_applier::lemma_without(sender.public_keys, t.cur_key);
                        assert(bytes_list_encodable(kept.push(t.new_key))) by {
                            let r = kept.push(t.new_key);
                            assert forall|i: int| 0 <= i < r.len() implies bytes_encodable(
                                #[trigger] r[i],
                            ) by {
                                if i < kept.len() {
                                    assert(r[i] == kept[i]);
                                }
                            }
                        }
                    }
                },
                _ => {},
            }
            if effect.state != charged {
                lemma_account_stored(charged, sender_id, effect.sender, sender_id);
            }
        }
    }
}

/// A code that was decoded with its key fits the length field of the encoding.
pub proof fn lemma_decoded_code_encodable(args: Seq<u8>)
    ensures
        spec_decode_deploy_args(args) is Some ==> spec_decode_deploy_args(args).unwrap().1.len()
            <= u64::MAX,
{
}

/// What a receipt that is applied without a run leaves of the account
/// `id` and of its code, where `id` is not the receiver: both as they were.
pub proof fn lemma_receipt_touches_receiver_only(
    state: StateMap,
    receipt: ReceiptView,
    block_index: BlockIndex,
    id: Seq<char>,
)
    requires
        spec_apply_receipt(state, receipt, Seq::empty(), block_index).progress is Applied,
        id != receipt.receiver,
    ensures
        spec_get_account(spec_settled(state, receipt, block_index), id) == spec_get_account(
            state,
            id,
        ),
        spec_get_code(spec_settled(state, receipt, block_index), id) == spec_get_code(state, id),
{
    reveal(spec_apply_receipt);
    let receiver_id = receipt.receiver;
    let filler = spec_new_account(Seq::empty(), 0, Seq::empty());
    let empty_callback = CallbackView {
        method_name: Seq::empty(),
        args: Seq::empty(),
        results: Seq::empty(),
        mana: 0,
        callback: None,
        result_counter: 0,
        accounting_info: spec_general(Seq::empty()),
    };
    let started = spec_dispatch_receipt(state, receipt, block_index);
    let after = started.state;
    // Every write of a dispatch is one of these four.
    assert forall|s: StateMap, a: AccountView|
        spec_get_account(#[trigger] spec_set_account(s, receiver_id, a), id) == spec_get_account(
            s,
            id,
        ) && spec_get_code(spec_set_account(s, receiver_id, a), id) == spec_get_code(s, id) by {
        lemma_noted(s, receiver_id, a, id);
        lemma_code_untouched(
            s,
            id,
            receiver_id,
            a,
            spec_general(Seq::empty()),
            TxTotalStake::spec_new(0),
            Seq::empty(),
            empty_callback,
            Seq::empty(),
        );
    }
    assert forall|s: StateMap, c: Seq<u8>|
        spec_get_account(#[trigger] spec_set_code(s, receiver_id, c), id) == spec_get_account(s, id)
            && spec_get_code(spec_set_code(s, receiver_id, c), id) == spec_get_code(s, id) by {
        lemma_accounts_untouched(
            s,
            id,
            spec_general(Seq::empty()),
            TxTotalStake::spec_new(0),
            receiver_id,
            c,
        );
        lemma_code_untouched(
            s,
            id,
            receiver_id,
            filler,
            spec_general(Seq::empty()),
            TxTotalStake::spec_new(0),
            Seq::empty(),
            empty_callback,
            c,
        );
    }
    assert forall|s: StateMap, info: AccountingInfoView, stake: TxTotalStake|
        spec_get_account(#[trigger] spec_set_tx_stake(s, info, stake), id) == spec_get_account(
            s,
            id,
        ) && spec_get_code(spec_set_tx_stake(s, info, stake), id) == spec_get_code(s, id) by {
        lemma_accounts_untouched(s, id, info, stake, receiver_id, Seq::empty());
        lemma_code_untouched(
            s,
            id,
            receiver_id,
            filler,
            info,
            stake,
            Seq::empty(),
            empty_callback,
            Seq::empty(),
        );
    }
    assert forall|s: StateMap, callback_id: Seq<u8>, callback: CallbackView|
        spec_get_account(#[trigger] spec_set_callback(s, callback_id, callback), id)
            == spec_get_account(s, id) && spec_get_code(
            spec_set_callback(s, callback_id, callback),
            id,
        ) == spec_get_code(s, id) by {
        lemma_code_untouched(
            s,
            id,
            receiver_id,
            filler,
            spec_general(Seq::empty()),
            TxTotalStake::spec_new(0),
            callback_id,
            callback,
            Seq::empty(),
        );
    }
}

/// A receipt that is applied without a run leaves every account with
/// the hash of its code, and code with accounts only.
pub proof fn lemma_receipt_keeps_code_hashes(
    state: StateMap,
    receipt: ReceiptView,
    block_index: BlockIndex,
)
    requires
        spec_code_consistent(state),
        spec_apply_receipt(state, receipt, Seq::empty(), block_index).progress is Applied,
    ensures
        spec_code_consistent(spec_settled(state, receipt, block_index)),
{
    reveal(spec_apply_receipt);
    let after = spec_settled(state, receipt, block_index);
    let receiver_id = receipt.receiver;
    let started = spec_dispatch_receipt(state, receipt, block_index);
    let d = started.step->Done_0;
    let filler = spec_new_account(Seq::empty(), 0, Seq::empty());
    let empty_callback = CallbackView {
        method_name: Seq::empty(),
        args: Seq::empty(),
        results: Seq::empty(),
        mana: 0,
        callback: None,
        result_counter: 0,
        accounting_info: spec_general(Seq::empty()),
    };
    assert forall|id: Seq<char>|
        match #[trigger] spec_get_account(after, id) {
            Some(account) => account.code_hash == spec_hash(spec_code_of(after, id)),
            None => spec_get_code(after, id) is None,
        } by {
        let before = spec_get_account(state, id);
        if id != receiver_id {
            lemma_receipt_touches_receiver_only(state, receipt, block_index, id);
        } else if d.result is Ok {
            lemma_stored_account_encodable(state, id);
            match before {
                Some(receiver) => {
                    match receipt.body {
                        ReceiptBodyView::NewCall(call) => {
                            if call.method_name.len() == 0 {
                                if call.amount > 0 {
                                    let credited = AccountView {
                                        amount: (receiver.amount + call.amount) as u64,
                                        ..receiver
                                    };
                                    lemma_account_stored(state, id, credited, id);
                                    lemma_code_untouched(
                                        state,
                                        id,
                                        id,
                                        credited,
                                        spec_general(id),
                                        TxTotalStake::spec_new(0),
                                        Seq::empty(),
                                        empty_callback,
                                        Seq::empty(),
                                    );
                                }
                            } else if call.method_name == spec_method_create_account() {
                            } else if call.method_name == spec_method_deploy() {
                                let code = spec_decode_deploy_args(call.args).unwrap().1;
                                lemma_decoded_code_encodable(call.args);
                                let coded = spec_set_code(state, id, code);
                                let hashed = AccountView { code_hash: spec_hash(code), ..receiver };
                                lemma_code_untouched(
                                    state,
                                    id,
                                    id,
                                    hashed,
                                    spec_general(id),
                                    TxTotalStake::spec_new(0),
                                    Seq::empty(),
                                    empty_callback,
                                    code,
                                );
                                lemma_code_untouched(
                                    coded,
                                    id,
                                    id,
                                    hashed,
                                    spec_general(id),
                                    TxTotalStake::spec_new(0),
                                    Seq::empty(),
                                    empty_callback,
                                    code,
                                );
                                lemma_account_stored(coded, id, hashed, id);
                            }
                        },
                        ReceiptBodyView::Callback(res) => {
                            let stored_callback = spec_filled(
                                spec_get_callback(state, res.info.id).unwrap(),
                                res.info.result_index,
                                res.result,
                            );
                            lemma_code_untouched(
                                state,
                                id,
                                id,
                                receiver,
                                spec_general(id),
                                TxTotalStake::spec_new(0),
                                res.info.id,
                                stored_callback,
                                Seq::empty(),
                            );
                        },
                        ReceiptBodyView::Refund(amount) => {
                            let credited = AccountView {
                                amount: (receiver.amount + amount) as u64,
                                ..receiver
                            };
                            lemma_account_stored(state, id, credited, id);
                            lemma_code_untouched(
                                state,
                                id,
                                id,
                                credited,
                                spec_general(id),
                                TxTotalStake::spec_new(0),
                                Seq::empty(),
                                empty_callback,
                                Seq::empty(),
                            );
                        },
                        ReceiptBodyView::ManaAccounting(accounting) => {
                            lemma_accounts_untouched(
                                state,
                                id,
                                accounting.accounting_info,
                                TxTotalStake::spec_new(0),
                                id,
                                Seq::empty(),
                            );
                            let bucket = spec_get_tx_stake(state, accounting.accounting_info).unwrap();
                            let updated = bucket.spec_update(
                                block_index,
                                crate::tx_stakes::spec_default_config(),
                            ).spec_refund_mana_and_charge_gas(
                                accounting.mana_refund,
                                accounting.gas_used,
                            );
                            lemma_accounts_untouched(
                                state,
                                id,
                                accounting.accounting_info,
                                updated,
                                id,
                                Seq::empty(),
                            );
                            lemma_code_untouched(
                                state,
                                id,
                                id,
                                receiver,
                                accounting.accounting_info,
                                updated,
                                Seq::empty(),
                                empty_callback,
                                Seq::empty(),
                            );
                        },
                    }
                },
                None => {
                    match receipt.body {
                        ReceiptBodyView::NewCall(call) => {
                            if call.method_name == spec_method_create_account() {
                                let key = spec_decode_public_key(call.args).unwrap();
                                let account = spec_new_account(
                                    seq![key],
                                    call.amount,
                                    spec_hash(Seq::empty()),
                                );
                                let created = spec_set_account(state, id, account);
                                lemma_account_stored(state, id, account, id);
                                lemma_code_untouched(
                                    state,
                                    id,
                                    id,
                                    account,
                                    spec_general(id),
                                    spec_default_tx_stake(),
                                    Seq::empty(),
                                    empty_callback,
                                    Seq::empty(),
                                );
                                lemma_accounts_untouched(
                                    created,
                                    id,
                                    spec_general(id),
                                    spec_default_tx_stake(),
                                    id,
                                    Seq::empty(),
                                );
                                lemma_code_untouched(
                                    created,
                                    id,
                                    id,
                                    account,
                                    spec_general(id),
                                    spec_default_tx_stake(),
                                    Seq::empty(),
                                    empty_callback,
                                    Seq::empty(),
                                );
                            } else {
                                let (key_bytes, code) = spec_decode_deploy_args(call.args).unwrap();
                                lemma_decoded_code_encodable(call.args);
                                let key = spec_decode_public_key(key_bytes).unwrap();
                                let account = spec_new_account(
                                    seq![key],
                                    call.amount,
                                    spec_hash(code),
                                );
                                let created = spec_set_account(state, id, account);
                                lemma_account_stored(state, id, account, id);
                                lemma_accounts_untouched(
                                    created,
                                    id,
                                    spec_general(id),
                                    spec_default_tx_stake(),
                                    id,
                                    code,
                                );
                                lemma_code_untouched(
                                    created,
                                    id,
                                    id,
                                    account,
                                    spec_general(id),
                                    spec_default_tx_stake(),
                                    Seq::empty(),
                                    empty_callback,
                                    code,
                                );
                            }
                        },
                        _ => {},
                    }
                },
            }
        }
    }
}

} // verus!
