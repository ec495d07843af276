//! Applying receipts: deposits, refunds, the system methods, mana
//! accounting, and the calls and callbacks that run a method.
use crate::bytes::{bytes_list, copy_opt_bytes, opt_bytes, opt_bytes_list, same_bytes};
use crate::error::{
    spec_about, spec_plain, spec_short, spec_with_bytes, ErrorKind, RuntimeError, RuntimeErrorView,
};
use crate::executor::{
    execution_view, ExecutionOutcome, ExecutionOutcomeView, ExecutionRequest, ExecutionRequestView,
    ExecutionResult, PromiseId, PromiseIdView, ReturnData, ReturnDataView, RuntimeContext,
    RuntimeContextView,
};
use crate::ext::{spec_flush, spec_new_ext, spec_next, ExtError, RuntimeExt, RuntimeExtView};
use crate::hash::{create_nonce_with_nonce, hash, spec_hash, spec_nonce};
use crate::keys::{
    is_valid_account_id, spec_callback_key, spec_method_create_account, spec_method_deploy,
    spec_system_account, spec_valid_account_id, system_account, system_method_create_account,
    system_method_deploy,
};
use crate::mana::spec_general;
use crate::records::{
    decode_deploy_args, decode_public_key, get_account, get_callback, get_code, get_tx_stake,
    remove_callback, set_account, set_callback, set_code, set_tx_stake, spec_decode_deploy_args,
    spec_decode_public_key, spec_get_account, spec_get_callback, spec_get_code, spec_get_tx_stake,
    spec_new_account, spec_set_account, spec_set_callback, spec_set_code, spec_set_tx_stake,
    Account, AccountView,
};
use crate::state::{only_staged, same_base, StateDbUpdate, StateMap};
use crate::tx_applier::{applied, Applied};
use crate::tx_stakes::{spec_default_config, TxStakeConfig, TxTotalStake};
use crate::types::{
    copy_opt_info, lemma_views_concat, lemma_views_push, no_receipts, opt_info, spec_no_accounting,
    views, AccountId, AccountingInfo, AsyncCall, AsyncCallView, Balance, BlockIndex, CallbackId,
    CallbackInfo, CallbackInfoView, CallbackResult, CallbackResultView, CallbackView, LogEntry,
    ManaAccounting, ManaAccountingView, PublicKey, ReceiptBody, ReceiptBodyView,
    ReceiptTransaction, ReceiptView,
};
use vstd::prelude::*;

verus! {

/// The active stake of the mana bucket that a new account starts with.
pub const DEFAULT_TX_STAKE: Balance = 100;

/// A result with the state that it left staged.
pub ghost struct Handled {
    pub result: Applied,
    pub state: StateMap,
}

// ---------------------------------------------------------------------------
// Deposits and refunds
// ---------------------------------------------------------------------------
/// The receiver is credited with the amount, unless its balance cannot hold it.
pub open spec fn spec_deposit(
    state: StateMap,
    amount: Balance,
    receiver_id: Seq<char>,
    receiver: AccountView,
) -> Handled {
    if receiver.amount + amount > u64::MAX {
        Handled { result: Err(spec_about(ErrorKind::BalanceOverflow, receiver_id)), state }
    } else {
        Handled {
            result: Ok(Seq::empty()),
            state: spec_set_account(
                state,
                receiver_id,
                AccountView { amount: (receiver.amount + amount) as u64, ..receiver },
            ),
        }
    }
}

/// Credits `receiver` with `amount` and stores it.
pub fn deposit(
    state_update: &mut StateDbUpdate,
    amount: Balance,
    receiver_id: &AccountId,
    receiver: &mut Account,
) -> (r: Result<Vec<ReceiptTransaction>, RuntimeError>)
    requires
        old(state_update).wf(),
    ensures
        only_staged(old(state_update), final(state_update)),
        ({
            let handled = spec_deposit(old(state_update)@, amount, receiver_id@, old(receiver)@);
            &&& applied(r) == handled.result
            &&& final(state_update)@ == handled.state
        }),
        final(receiver)@ == if r is Ok {
            AccountView { amount: (old(receiver).amount + amount) as u64, ..old(receiver)@ }
        } else {
            old(receiver)@
        },
{
    match receiver.amount.checked_add(amount) {
        Some(credited) => {
            receiver.amount = credited;
            set_account(state_update, receiver_id, receiver);
            Ok(no_receipts())
        },
        None => Err(RuntimeError::about(ErrorKind::BalanceOverflow, receiver_id)),
    }
}

// ---------------------------------------------------------------------------
// System methods
// ---------------------------------------------------------------------------
/// The mana bucket that a new account starts with.
pub open spec fn spec_default_tx_stake() -> TxTotalStake {
    TxTotalStake::spec_new(0).spec_add_active_stake(DEFAULT_TX_STAKE)
}

/// Creates the account `account_id`: the id must be valid and the
/// arguments a public key. The account gets the key, the amount of the
/// call, the code hash of no code, and a general mana bucket.
pub open spec fn spec_system_create_account(
    state: StateMap,
    call: AsyncCallView,
    account_id: Seq<char>,
) -> Handled {
    if !spec_valid_account_id(account_id) {
        Handled { result: Err(spec_about(ErrorKind::InvalidAccountId, account_id)), state }
    } else {
        match spec_decode_public_key(call.args) {
            None => Handled { result: Err(spec_plain(ErrorKind::BadPublicKey)), state },
            Some(public_key) => Handled {
                result: Ok(Seq::empty()),
                state: spec_set_tx_stake(
                    spec_set_account(
                        state,
                        account_id,
                        spec_new_account(seq![public_key], call.amount, spec_hash(Seq::empty())),
                    ),
                    spec_general(account_id),
                    spec_default_tx_stake(),
                ),
            },
        }
    }
}

fn one_key(public_key: PublicKey) -> (keys: Vec<PublicKey>)
    ensures
        bytes_list(keys@) == seq![public_key@],
{
    let keys = vec![public_key];
    assert(bytes_list(keys@) =~= seq![public_key@]);
    keys
}

/// Creates the account `account_id` from the arguments of `call`.
pub fn system_create_account(
    state_update: &mut StateDbUpdate,
    call: &AsyncCall,
    account_id: &AccountId,
) -> (r: Result<Vec<ReceiptTransaction>, RuntimeError>)
    requires
        old(state_update).wf(),
    ensures
        only_staged(old(state_update), final(state_update)),
        ({
            let handled = spec_system_create_account(old(state_update)@, call@, account_id@);
            &&& applied(r) == handled.result
            &&& final(state_update)@ == handled.state
        }),
{
    if !is_valid_account_id(account_id) {
        return Err(RuntimeError::about(ErrorKind::InvalidAccountId, account_id));
    }
    let public_key = match decode_public_key(call.args.as_slice()) {
        Some(k) => k,
        None => {
            return Err(RuntimeError::plain(ErrorKind::BadPublicKey));
        },
    };
    let empty: Vec<u8> = Vec::new();
    let new_account = Account::new(one_key(public_key), call.amount, hash(empty.as_slice()));
    set_account(state_update, account_id, &new_account);
    let mut tx_total_stake = TxTotalStake::new(0);
    tx_total_stake.add_active_stake(DEFAULT_TX_STAKE);
    let info = AccountingInfo { originator: account_id.clone(), contract_id: None };
    set_tx_stake(state_update, &info, &tx_total_stake);
    Ok(no_receipts())
}

/// Creates the account `account_id` with the code to deploy: the arguments
/// must be a public key and the code. The account gets the key, the
/// amount of the call and the hash of the code, and the code is stored.
pub open spec fn spec_system_deploy(state: StateMap, call: AsyncCallView, account_id: Seq<char>) -> Handled {
    match spec_decode_deploy_args(call.args) {
        None => Handled { result: Err(spec_plain(ErrorKind::BadPublicKey)), state },
        Some((key_bytes, code)) => match spec_decode_public_key(key_bytes) {
            None => Handled { result: Err(spec_plain(ErrorKind::BadPublicKey)), state },
            Some(public_key) => Handled {
                result: Ok(Seq::empty()),
                state: spec_set_code(
                    spec_set_account(
                        state,
                        account_id,
                        spec_new_account(seq![public_key], call.amount, spec_hash(code)),
                    ),
                    account_id,
                    code,
                ),
            },
        },
    }
}

/// Creates the account `account_id` with the code in the arguments of `call`.
pub fn system_deploy(state_update: &mut StateDbUpdate, call: &AsyncCall, account_id: &AccountId) -> (r:
    Result<Vec<ReceiptTransaction>, RuntimeError>)
    requires
        old(state_update).wf(),
    ensures
        only_staged(old(state_update), final(state_update)),
        ({
            let handled = spec_system_deploy(old(state_update)@, call@, account_id@);
            &&& applied(r) == handled.result
            &&& final(state_update)@ == handled.state
        }),
{
    let (key_bytes, code) = match decode_deploy_args(call.args.as_slice()) {
        Some(x) => x,
        None => {
            return Err(RuntimeError::plain(ErrorKind::BadPublicKey));
        },
    };
    let public_key = match decode_public_key(key_bytes.as_slice()) {
        Some(k) => k,
        None => {
            return Err(RuntimeError::plain(ErrorKind::BadPublicKey));
        },
    };
    let new_account = Account::new(one_key(public_key), call.amount, hash(code.as_slice()));
    set_account(state_update, account_id, &new_account);
    set_code(state_update, account_id, code.as_slice());
    Ok(no_receipts())
}

/// Deploys code on an account that exists: the arguments must be a public
/// key and the code, and the account must hold the key. The code is
/// stored and the account gets its hash.
pub open spec fn spec_redeploy(
    state: StateMap,
    call: AsyncCallView,
    receiver_id: Seq<char>,
    receiver: AccountView,
) -> Handled {
    match spec_decode_deploy_args(call.args) {
        None => Handled { result: Err(spec_plain(ErrorKind::BadArgs)), state },
        Some((key_bytes, code)) => match spec_decode_public_key(key_bytes) {
            None => Handled { result: Err(spec_plain(ErrorKind::BadPublicKey)), state },
            Some(public_key) => if receiver.public_keys.contains(public_key) {
                Handled {
                    result: Ok(Seq::empty()),
                    state: spec_set_account(
                        spec_set_code(state, receiver_id, code),
                        receiver_id,
                        AccountView { code_hash: spec_hash(code), ..receiver },
                    ),
                }
            } else {
                Handled {
                    result: Err(
                        spec_with_bytes(ErrorKind::KeyNotAuthorized, receiver_id, public_key),
                    ),
                    state,
                }
            },
        },
    }
}

fn holds_key(keys: &Vec<PublicKey>, key: &PublicKey) -> (r: bool)
    ensures
        r == bytes_list(keys@).contains(key@),
{
    let mut i: usize = 0;
    while i < keys.len()
        invariant
            i <= keys.len(),
            forall|k: int| 0 <= k < i ==> bytes_list(keys@)[k] != key@,
        decreases keys.len() - i,
    {
        if same_bytes(keys[i].as_slice(), key.as_slice()) {
            assert(bytes_list(keys@)[i as int] == key@);
            return true;
        }
        i += 1;
    }
    false
}

/// Deploys the code in the arguments of `call` on the account `receiver`.
pub fn redeploy(
    state_update: &mut StateDbUpdate,
    call: &AsyncCall,
    receiver_id: &AccountId,
    receiver: &mut Account,
) -> (r: Result<Vec<ReceiptTransaction>, RuntimeError>)
    requires
        old(state_update).wf(),
    ensures
        only_staged(old(state_update), final(state_update)),
        ({
            let handled = spec_redeploy(old(state_update)@, call@, receiver_id@, old(receiver)@);
            &&& applied(r) == handled.result
            &&& final(state_update)@ == handled.state
        }),
        final(receiver)@.amount == old(receiver)@.amount,
{
    let (key_bytes, code) = match decode_deploy_args(call.args.as_slice()) {
        Some(x) => x,
        None => {
            return Err(RuntimeError::plain(ErrorKind::BadArgs));
        },
    };
    let public_key = match decode_public_key(key_bytes.as_slice()) {
        Some(k) => k,
        None => {
            return Err(RuntimeError::plain(ErrorKind::BadPublicKey));
        },
    };
    if holds_key(&receiver.public_keys, &public_key) {
        receiver.code_hash = hash(code.as_slice());
        set_code(state_update, receiver_id, code.as_slice());
        set_account(state_update, receiver_id, receiver);
        Ok(no_receipts())
    } else {
        Err(
            RuntimeError::with_bytes(
                ErrorKind::KeyNotAuthorized,
                receiver_id,
                public_key.as_slice(),
            ),
        )
    }
}

// ---------------------------------------------------------------------------
// Mana accounting
// ---------------------------------------------------------------------------
/// Whether the bucket that paid for a run is in the state.
pub open spec fn spec_has_bucket(state: StateMap, accounting: ManaAccountingView) -> bool {
    spec_get_tx_stake(state, accounting.accounting_info) is Some
}

/// The bucket that paid, which is in the state, gets the unused mana back
/// and is charged the gas.
pub open spec fn spec_mana_accounting(
    state: StateMap,
    block_index: BlockIndex,
    accounting: ManaAccountingView,
) -> Handled
    recommends
        spec_has_bucket(state, accounting),
{
    Handled {
        result: Ok(Seq::empty()),
        state: spec_set_tx_stake(
            state,
            accounting.accounting_info,
            spec_get_tx_stake(state, accounting.accounting_info).unwrap().spec_update(
                block_index,
                spec_default_config(),
            ).spec_refund_mana_and_charge_gas(accounting.mana_refund, accounting.gas_used),
        ),
    }
}

/// Applies what a run used to the bucket that paid for it. The bucket
/// must be in the state: accounting without it is no failure of an
/// input but the sign of a corrupt state, on which `dispatch_receipt`
/// ends the step.
pub fn mana_accounting(
    state_update: &mut StateDbUpdate,
    block_index: BlockIndex,
    accounting: &ManaAccounting,
) -> (r: Result<Vec<ReceiptTransaction>, RuntimeError>)
    requires
        old(state_update).wf(),
        spec_has_bucket(old(state_update)@, accounting@),
    ensures
        only_staged(old(state_update), final(state_update)),
        ({
            let handled = spec_mana_accounting(old(state_update)@, block_index, accounting@);
            &&& applied(r) == handled.result
            &&& final(state_update)@ == handled.state
        }),
{
    let mut bucket = get_tx_stake(state_update, &accounting.accounting_info).unwrap();
    let config = TxStakeConfig::default();
    bucket.update(block_index, &config);
    bucket.refund_mana_and_charge_gas(accounting.mana_refund, accounting.gas_used);
    set_tx_stake(state_update, &accounting.accounting_info, &bucket);
    Ok(no_receipts())
}

// ---------------------------------------------------------------------------
// What a run returned
// ---------------------------------------------------------------------------
/// What a run leaves: the receipts to send or the reason for which it
/// failed, the bridge, and the state.
pub ghost struct Mapped {
    pub result: Applied,
    pub ext: RuntimeExtView,
    pub state: StateMap,
}

/// The receipts that the method created are sent, and the callbacks that
/// it created are written to the state.
pub open spec fn spec_collect(ext: RuntimeExtView, state: StateMap) -> Mapped {
    Mapped { result: Ok(ext.receipts), ext: ext.drained(), state: spec_flush(state, ext.callbacks) }
}

/// As `spec_collect`, with the value `value` sent to the slot `info` in
/// a receipt from the account that ran to the account that called.
pub open spec fn spec_answer(
    ext: RuntimeExtView,
    state: StateMap,
    info: CallbackInfoView,
    value: Seq<u8>,
    sender_id: Seq<char>,
    receiver_id: Seq<char>,
) -> Mapped {
    Mapped {
        result: Ok(
            ext.receipts.push(
                ReceiptView {
                    originator: receiver_id,
                    receiver: sender_id,
                    nonce: ext.next_id(),
                    body: ReceiptBodyView::Callback(
                        CallbackResultView { info, result: Some(value) },
                    ),
                },
            ),
        ),
        ext: ext.drained().stepped(),
        state: spec_flush(state, ext.callbacks),
    }
}

/// The error for a promise that cannot take the awaiting slot.
pub open spec fn spec_promise_error(e: ExtError, of_callback: bool) -> ErrorKind {
    match e {
        ExtError::PromiseIdNotFound => ErrorKind::PromiseNotFound,
        ExtError::PromiseAlreadyHasCallback => if of_callback {
            ErrorKind::CallbackHasCallback
        } else {
            ErrorKind::ReceiptHasCallback
        },
        ExtError::WrongPromise => ErrorKind::NonCallbackPromise,
    }
}

/// Turns what a method returned into receipts. Where nobody awaits the
/// call, the method's receipts and callbacks go out as they are. Where
/// `callback_info` awaits it, a value (or nothing, as the empty value) is
/// sent to the awaiting slot, and a promise takes over the awaiting slot:
/// the receipt or callback that the promise names must be one of this
/// run and not be awaited yet, and a joined promise cannot take it.
pub open spec fn spec_return_data_to_receipts(
    ext: RuntimeExtView,
    state: StateMap,
    data: ReturnDataView,
    callback_info: Option<CallbackInfoView>,
    sender_id: Seq<char>,
    receiver_id: Seq<char>,
) -> Mapped {
    match callback_info {
        None => spec_collect(ext, state),
        Some(info) => match data {
            ReturnDataView::Value(v) => spec_answer(ext, state, info, v, sender_id, receiver_id),
            ReturnDataView::Nothing => spec_answer(
                ext,
                state,
                info,
                Seq::empty(),
                sender_id,
                receiver_id,
            ),
            ReturnDataView::Promise(PromiseIdView::Callback(id)) => {
                let (awaited, done) = ext.await_callback(id, info);
                match done {
                    Ok(()) => spec_collect(awaited, state),
                    Err(e) => Mapped {
                        result: Err(spec_plain(spec_promise_error(e, true))),
                        ext,
                        state,
                    },
                }
            },
            ReturnDataView::Promise(PromiseIdView::Receipt(id)) => {
                let (awaited, done) = ext.await_receipt(id, info);
                match done {
                    Ok(()) => spec_collect(awaited, state),
                    Err(e) => Mapped {
                        result: Err(spec_plain(spec_promise_error(e, false))),
                        ext,
                        state,
                    },
                }
            },
            ReturnDataView::Promise(PromiseIdView::Joiner(_)) => Mapped {
                result: Err(spec_plain(ErrorKind::NonCallbackPromise)),
                ext,
                state,
            },
        },
    }
}

fn promise_error(e: ExtError, of_callback: bool) -> (r: RuntimeError)
    ensures
        r@ == spec_plain(spec_promise_error(e, of_callback)),
{
    match e {
        ExtError::PromiseIdNotFound => RuntimeError::plain(ErrorKind::PromiseNotFound),
        ExtError::PromiseAlreadyHasCallback => if of_callback {
            RuntimeError::plain(ErrorKind::CallbackHasCallback)
        } else {
            RuntimeError::plain(ErrorKind::ReceiptHasCallback)
        },
        ExtError::WrongPromise => RuntimeError::plain(ErrorKind::NonCallbackPromise),
    }
}

/// Turns what a method returned into the receipts to send, and writes
/// the callbacks that the method created to the state.
pub fn return_data_to_receipts(
    runtime_ext: &mut RuntimeExt,
    state_update: &mut StateDbUpdate,
    return_data: ReturnData,
    callback_info: &Option<CallbackInfo>,
    sender_id: &AccountId,
    receiver_id: &AccountId,
) -> (r: Result<Vec<ReceiptTransaction>, RuntimeError>)
    requires
        old(state_update).wf(),
    ensures
        only_staged(old(state_update), final(state_update)),
        ({
            let mapped = spec_return_data_to_receipts(
                old(runtime_ext)@,
                old(state_update)@,
                return_data@,
                crate::types::opt_info(*callback_info),
                sender_id@,
                receiver_id@,
            );
            &&& applied(r) == mapped.result
            &&& final(runtime_ext)@ == mapped.ext
            &&& final(state_update)@ == mapped.state
        }),
{
    let callback_info = match callback_info {
        Some(info) => info,
        None => {
            let receipts = runtime_ext.get_receipts();
            runtime_ext.flush_callbacks(state_update);
            return Ok(receipts);
        },
    };
    let callback_res = match return_data {
        ReturnData::Value(v) => Some(CallbackResult::new(callback_info.clone(), Some(v))),
        ReturnData::Nothing => Some(CallbackResult::new(callback_info.clone(), Some(Vec::new()))),
        ReturnData::Promise(PromiseId::Callback(id)) => {
            match runtime_ext.await_callback(id.as_slice(), callback_info.clone()) {
                Ok(()) => None,
                Err(e) => {
                    return Err(promise_error(e, true));
                },
            }
        },
        ReturnData::Promise(PromiseId::Receipt(id)) => {
            match runtime_ext.await_receipt(id.as_slice(), callback_info.clone()) {
                Ok(()) => None,
                Err(e) => {
                    return Err(promise_error(e, false));
                },
            }
        },
        ReturnData::Promise(PromiseId::Joiner(_)) => {
            return Err(RuntimeError::plain(ErrorKind::NonCallbackPromise));
        },
    };
    let mut receipts = runtime_ext.get_receipts();
    if let Some(callback_res) = callback_res {
        let new_receipt = ReceiptTransaction::new(
            receiver_id.clone(),
            sender_id.clone(),
            runtime_ext.create_nonce(),
            ReceiptBody::Callback(callback_res),
        );
        proof {
            lemma_views_push(receipts@, new_receipt);
        }
        receipts.push(new_receipt);
    }
    runtime_ext.flush_callbacks(state_update);
    Ok(receipts)
}

// ---------------------------------------------------------------------------
// Dispatch
// ---------------------------------------------------------------------------
/// What the dispatch of a receipt gave: its result, and what the
/// compensating receipts are made from.
#[derive(Debug, PartialEq, Eq)]
pub struct Dispatched {
    pub result: Result<Vec<ReceiptTransaction>, RuntimeError>,
    /// The amount that the receipt carried.
    pub amount: Balance,
    /// The slot that awaits the result of the receipt.
    pub callback_info: Option<CallbackInfo>,
    pub receiver_exists: bool,
    /// What the run used, where there was one.
    pub mana_accounting: ManaAccounting,
}

/// What a `Dispatched` holds, as contracts speak of it.
pub ghost struct DispatchedView {
    pub result: Applied,
    pub amount: Balance,
    pub callback_info: Option<CallbackInfoView>,
    pub receiver_exists: bool,
    pub mana_accounting: ManaAccountingView,
}

impl View for Dispatched {
    type V = DispatchedView;

    open spec fn view(&self) -> DispatchedView {
        DispatchedView {
            result: applied(self.result),
            amount: self.amount,
            callback_info: opt_info(self.callback_info),
            receiver_exists: self.receiver_exists,
            mana_accounting: self.mana_accounting@,
        }
    }
}

/// A receipt that waits for a method to be run.
#[derive(Clone, Debug, PartialEq, Eq)]
pub struct PendingExecution {
    /// The method to run.
    pub request: ExecutionRequest,
    /// The host interface of the run.
    pub ext: RuntimeExt,
    /// The account that runs the method.
    pub receiver: Account,
    /// The slot that awaits what the method returns.
    pub awaiting: Option<CallbackInfo>,
    /// The callback that the method belongs to, where it is one's.
    pub callback_id: Option<CallbackId>,
    pub mana_accounting: ManaAccounting,
    pub amount: Balance,
    pub callback_info: Option<CallbackInfo>,
}

/// What a `Pending` holds, as contracts speak of it.
pub ghost struct PendingView {
    pub request: ExecutionRequestView,
    pub ext: RuntimeExtView,
    pub receiver: AccountView,
    pub awaiting: Option<CallbackInfoView>,
    pub callback_id: Option<Seq<u8>>,
    pub mana_accounting: ManaAccountingView,
    pub amount: Balance,
    pub callback_info: Option<CallbackInfoView>,
}

impl View for PendingExecution {
    type V = PendingView;

    open spec fn view(&self) -> PendingView {
        PendingView {
            request: self.request@,
            ext: self.ext@,
            receiver: self.receiver@,
            awaiting: opt_info(self.awaiting),
            callback_id: opt_bytes(self.callback_id),
            mana_accounting: self.mana_accounting@,
            amount: self.amount,
            callback_info: opt_info(self.callback_info),
        }
    }
}

/// Where the dispatch of a receipt stands.
#[derive(Debug, PartialEq, Eq)]
pub enum ReceiptStep {
    /// The receipt is dispatched.
    Done(Dispatched),
    /// A method has to be run first.
    Run(PendingExecution),
    /// The state is corrupt: the apply step cannot go on.
    Fatal(RuntimeError),
}

/// What a `ReceiptStep` holds, as contracts speak of it.
pub ghost enum ReceiptStepView {
    Done(DispatchedView),
    Run(PendingView),
    Fatal(RuntimeErrorView),
}

impl View for ReceiptStep {
    type V = ReceiptStepView;

    open spec fn view(&self) -> ReceiptStepView {
        match self {
            ReceiptStep::Done(d) => ReceiptStepView::Done(d@),
            ReceiptStep::Run(p) => ReceiptStepView::Run(p@),
            ReceiptStep::Fatal(e) => ReceiptStepView::Fatal(e@),
        }
    }
}

/// Where a dispatch stands, the state that it left staged, and its logs.
pub ghost struct Started {
    pub step: ReceiptStepView,
    pub state: StateMap,
    pub logs: Seq<Seq<char>>,
}

/// A dispatch that ran nothing.
pub open spec fn spec_done(
    handled: Handled,
    amount: Balance,
    callback_info: Option<CallbackInfoView>,
    receiver_exists: bool,
    logs: Seq<Seq<char>>,
) -> Started {
    Started {
        step: ReceiptStepView::Done(
            DispatchedView {
                result: handled.result,
                amount,
                callback_info,
                receiver_exists,
                mana_accounting: spec_no_accounting(),
            },
        ),
        state: handled.state,
        logs,
    }
}

/// The log entry for an account that was to be created and exists.
pub open spec fn spec_exists_log(receiver: Seq<char>) -> Seq<char> {
    "Account "@ + receiver + " already exists"@
}

/// The refund of `amount` to `receiver`, numbered `index` under `nonce`.
pub open spec fn spec_refund_receipt(
    originator: Seq<char>,
    receiver: Seq<char>,
    nonce: Seq<u8>,
    index: u64,
    amount: Balance,
) -> ReceiptView {
    ReceiptView {
        originator,
        receiver,
        nonce: spec_nonce(nonce, index),
        body: ReceiptBodyView::Refund(amount),
    }
}

/// The run of the method that a call names, on the receiver's code.
pub open spec fn spec_apply_async_call(
    state: StateMap,
    call: AsyncCallView,
    receipt: ReceiptView,
    receiver: AccountView,
    block_index: BlockIndex,
) -> Result<PendingView, RuntimeErrorView> {
    match spec_get_code(state, receipt.receiver) {
        None => Err(spec_about(ErrorKind::CodeNotFound, receipt.receiver)),
        Some(code) => Ok(
            PendingView {
                request: ExecutionRequestView {
                    code,
                    method_name: call.method_name,
                    args: call.args,
                    input_data: Seq::empty(),
                    context: RuntimeContextView {
                        initial_balance: receiver.amount,
                        received_amount: call.amount,
                        sender_id: receipt.originator,
                        account_id: receipt.receiver,
                        mana: call.mana,
                        block_index,
                        random_seed: receipt.nonce,
                    },
                },
                ext: spec_new_ext(receipt.receiver, call.accounting_info, receipt.nonce),
                receiver,
                awaiting: call.callback,
                callback_id: None,
                mana_accounting: ManaAccountingView {
                    accounting_info: call.accounting_info,
                    mana_refund: call.mana,
                    gas_used: 0,
                },
                amount: call.amount,
                callback_info: call.callback,
            },
        ),
    }
}

/// The callback with `result` in the slot `index` and one more result counted.
pub open spec fn spec_filled(callback: CallbackView, index: u64, result: Option<Seq<u8>>) -> CallbackView {
    CallbackView {
        results: callback.results.update(index as int, result),
        result_counter: spec_next(callback.result_counter),
        ..callback
    }
}

/// Whether the callback has all its results.
pub open spec fn spec_complete(callback: CallbackView) -> bool {
    callback.result_counter == callback.results.len()
}

/// A result arrives for a callback: the receiver must have code, the
/// callback must be in the state and have the slot. The result goes into
/// the slot. A callback that then has all its results is run; one that
/// still waits is stored as it now is.
pub open spec fn spec_apply_callback(
    state: StateMap,
    res: CallbackResultView,
    receipt: ReceiptView,
    receiver: AccountView,
    block_index: BlockIndex,
) -> Started {
    let failed = |e: RuntimeErrorView|
        spec_done(Handled { result: Err(e), state }, 0, Some(res.info), true, Seq::empty());
    match spec_get_code(state, receipt.receiver) {
        None => failed(spec_about(ErrorKind::NoContractCode, receipt.receiver)),
        Some(code) => match spec_get_callback(state, res.info.id) {
            None => failed(
                spec_with_bytes(ErrorKind::CallbackNotFound, Seq::empty(), res.info.id),
            ),
            Some(callback) => if res.info.result_index >= callback.results.len() {
                failed(
                    spec_short(
                        ErrorKind::ResultIndexOutOfRange,
                        Seq::empty(),
                        res.info.result_index,
                        0,
                        0,
                    ),
                )
            } else {
                let filled = spec_filled(callback, res.info.result_index, res.result);
                if spec_complete(filled) {
                    Started {
                        step: ReceiptStepView::Run(
                            PendingView {
                                request: ExecutionRequestView {
                                    code,
                                    method_name: filled.method_name,
                                    args: filled.args,
                                    input_data: filled.results,
                                    context: RuntimeContextView {
                                        initial_balance: receiver.amount,
                                        received_amount: 0,
                                        sender_id: receipt.originator,
                                        account_id: receipt.receiver,
                                        mana: filled.mana,
                                        block_index,
                                        random_seed: receipt.nonce,
                                    },
                                },
                                ext: spec_new_ext(
                                    receipt.receiver,
                                    filled.accounting_info,
                                    receipt.nonce,
                                ),
                                receiver,
                                awaiting: filled.callback,
                                callback_id: Some(res.info.id),
                                mana_accounting: ManaAccountingView {
                                    accounting_info: filled.accounting_info,
                                    mana_refund: filled.mana,
                                    gas_used: 0,
                                },
                                amount: 0,
                                callback_info: Some(res.info),
                            },
                        ),
                        state,
                        logs: Seq::empty(),
                    }
                } else {
                    spec_done(
                        Handled {
                            result: Ok(Seq::empty()),
                            state: spec_set_callback(state, res.info.id, filled),
                        },
                        0,
                        Some(res.info),
                        true,
                        Seq::empty(),
                    )
                }
            },
        },
    }
}

/// The dispatch of a call to an account that exists: a deposit where the
/// method name is empty, a refund where the account was to be created, a
/// deployment, or the run of a method.
pub open spec fn spec_dispatch_call(
    state: StateMap,
    call: AsyncCallView,
    receipt: ReceiptView,
    receiver: AccountView,
    block_index: BlockIndex,
) -> Started {
    if call.method_name.len() == 0 {
        if call.amount > 0 {
            spec_done(
                spec_deposit(state, call.amount, receipt.receiver, receiver),
                call.amount,
                None,
                true,
                Seq::empty(),
            )
        } else {
            spec_done(
                Handled { result: Ok(Seq::empty()), state },
                call.amount,
                None,
                true,
                Seq::empty(),
            )
        }
    } else if call.method_name == spec_method_create_account() {
        spec_done(
            Handled {
                result: Ok(
                    seq![
                        spec_refund_receipt(
                            spec_system_account(),
                            receipt.originator,
                            receipt.nonce,
                            0,
                            call.amount,
                        ),
                    ],
                ),
                state,
            },
            call.amount,
            None,
            true,
            seq![spec_exists_log(receipt.receiver)],
        )
    } else if call.method_name == spec_method_deploy() {
        spec_done(
            spec_redeploy(state, call, receipt.receiver, receiver),
            call.amount,
            None,
            true,
            Seq::empty(),
        )
    } else {
        match spec_apply_async_call(state, call, receipt, receiver, block_index) {
            Ok(pending) => Started {
                step: ReceiptStepView::Run(pending),
                state,
                logs: Seq::empty(),
            },
            Err(e) => spec_done(
                Handled { result: Err(e), state },
                call.amount,
                call.callback,
                true,
                Seq::empty(),
            ),
        }
    }
}

/// The dispatch of a receipt whose receiver has no account: the system
/// methods create it, and everything else fails.
pub open spec fn spec_dispatch_absent(state: StateMap, receipt: ReceiptView) -> Started {
    let missing = Handled {
        result: Err(spec_about(ErrorKind::ReceiverNotFound, receipt.receiver)),
        state,
    };
    match receipt.body {
        ReceiptBodyView::NewCall(call) => spec_done(
            if call.method_name == spec_method_create_account() {
                spec_system_create_account(state, call, receipt.receiver)
            } else if call.method_name == spec_method_deploy() {
                spec_system_deploy(state, call, receipt.receiver)
            } else {
                missing
            },
            call.amount,
            None,
            false,
            Seq::empty(),
        ),
        _ => spec_done(missing, 0, None, false, Seq::empty()),
    }
}

/// The dispatch of a receipt, up to the point where a method has to run.
pub open spec fn spec_dispatch_receipt(
    state: StateMap,
    receipt: ReceiptView,
    block_index: BlockIndex,
) -> Started {
    match spec_get_account(state, receipt.receiver) {
        None => spec_dispatch_absent(state, receipt),
        Some(receiver) => match receipt.body {
            ReceiptBodyView::NewCall(call) => spec_dispatch_call(
                state,
                call,
                receipt,
                receiver,
                block_index,
            ),
            ReceiptBodyView::Callback(res) => spec_apply_callback(
                state,
                res,
                receipt,
                receiver,
                block_index,
            ),
            ReceiptBodyView::Refund(amount) => spec_done(
                spec_deposit(state, amount, receipt.receiver, receiver),
                0,
                None,
                true,
                Seq::empty(),
            ),
            ReceiptBodyView::ManaAccounting(accounting) => if spec_has_bucket(state, accounting) {
                spec_done(
                    spec_mana_accounting(state, block_index, accounting),
                    0,
                    None,
                    true,
                    Seq::empty(),
                )
            } else {
                Started {
                    step: ReceiptStepView::Fatal(spec_plain(ErrorKind::TxStakeNotFound)),
                    state,
                    logs: Seq::empty(),
                }
            },
        },
    }
}

fn done(
    result: Result<Vec<ReceiptTransaction>, RuntimeError>,
    amount: Balance,
    callback_info: Option<CallbackInfo>,
    receiver_exists: bool,
) -> (r: ReceiptStep)
    ensures
        r@ == ReceiptStepView::Done(
            DispatchedView {
                result: applied(result),
                amount,
                callback_info: opt_info(callback_info),
                receiver_exists,
                mana_accounting: spec_no_accounting(),
            },
        ),
{
    ReceiptStep::Done(
        Dispatched {
            result,
            amount,
            callback_info,
            receiver_exists,
            mana_accounting: ManaAccounting::default(),
        },
    )
}

/// Starts the application of a call: finds the code of the receiver and
/// hands out what is to be run.
pub fn apply_async_call(
    state_update: &StateDbUpdate,
    call: &AsyncCall,
    receipt: &ReceiptTransaction,
    receiver: Account,
    block_index: BlockIndex,
) -> (r: Result<PendingExecution, RuntimeError>)
    requires
        state_update.wf(),
    ensures
        match spec_apply_async_call(state_update@, call@, receipt@, receiver@, block_index) {
            Ok(pending) => r is Ok && r.unwrap()@ == pending,
            Err(e) => r is Err && r.unwrap_err()@ == e,
        },
{
    let code = match get_code(state_update, &receipt.receiver) {
        Some(code) => code,
        None => {
            return Err(RuntimeError::about(ErrorKind::CodeNotFound, &receipt.receiver));
        },
    };
    let input_data: Vec<Option<Vec<u8>>> = Vec::new();
    assert(opt_bytes_list(input_data@) =~= Seq::empty());
    Ok(
        PendingExecution {
            request: ExecutionRequest {
                code,
                method_name: call.method_name.clone(),
                args: call.args.clone(),
                input_data,
                context: RuntimeContext {
                    initial_balance: receiver.amount,
                    received_amount: call.amount,
                    sender_id: receipt.originator.clone(),
                    account_id: receipt.receiver.clone(),
                    mana: call.mana,
                    block_index,
                    random_seed: receipt.nonce.clone(),
                },
            },
            ext: RuntimeExt::new(
                &receipt.receiver,
                &call.accounting_info,
                receipt.nonce.as_slice(),
            ),
            receiver,
            awaiting: copy_opt_info(&call.callback),
            callback_id: None,
            mana_accounting: ManaAccounting {
                accounting_info: call.accounting_info.clone(),
                mana_refund: call.mana,
                gas_used: 0,
            },
            amount: call.amount,
            callback_info: copy_opt_info(&call.callback),
        },
    )
}

/// Applies a result that arrives for a callback: puts it into its slot,
/// and hands out what is to be run where the callback is then complete.
pub fn apply_callback(
    state_update: &mut StateDbUpdate,
    res: &CallbackResult,
    receipt: &ReceiptTransaction,
    receiver: Account,
    block_index: BlockIndex,
) -> (r: ReceiptStep)
    requires
        old(state_update).wf(),
    ensures
        only_staged(old(state_update), final(state_update)),
        ({
            let started = spec_apply_callback(
                old(state_update)@,
                res@,
                receipt@,
                receiver@,
                block_index,
            );
            &&& r@ == started.step
            &&& final(state_update)@ == started.state
            &&& started.logs == Seq::<Seq<char>>::empty()
        }),
{
    let found = get_callback(state_update, res.info.id.as_slice());
    let code = match get_code(state_update, &receipt.receiver) {
        Some(code) => code,
        None => {
            return done(
                Err(RuntimeError::about(ErrorKind::NoContractCode, &receipt.receiver)),
                0,
                Some(res.info.clone()),
                true,
            );
        },
    };
    let mut callback = match found {
        Some(callback) => callback,
        None => {
            return done(
                Err(
                    RuntimeError::with_bytes(
                        ErrorKind::CallbackNotFound,
                        &String::new(),
                        res.info.id.as_slice(),
                    ),
                ),
                0,
                Some(res.info.clone()),
                true,
            );
        },
    };
    if res.info.result_index >= callback.results.len() as u64 {
        return done(
            Err(
                RuntimeError::short(
                    ErrorKind::ResultIndexOutOfRange,
                    &String::new(),
                    res.info.result_index,
                    0,
                    0,
                ),
            ),
            0,
            Some(res.info.clone()),
            true,
        );
    }
    let ghost before = callback@;
    let slot = res.info.result_index as usize;
    let result = copy_opt_bytes(&res.result);
    callback.results[slot] = result;
    if callback.result_counter < u64::MAX {
        callback.result_counter += 1;
    }
    assert(callback@ == spec_filled(before, res.info.result_index, res@.result)) by {
        assert(callback@.results =~= before.results.update(slot as int, res@.result));
    }
    if callback.result_counter == callback.results.len() as u64 {
        let ext = RuntimeExt::new(
            &receipt.receiver,
            &callback.accounting_info,
            receipt.nonce.as_slice(),
        );
        ReceiptStep::Run(
            PendingExecution {
                request: ExecutionRequest {
                    code,
                    method_name: callback.method_name,
                    args: callback.args,
                    input_data: callback.results,
                    context: RuntimeContext {
                        initial_balance: receiver.amount,
                        received_amount: 0,
                        sender_id: receipt.originator.clone(),
                        account_id: receipt.receiver.clone(),
                        mana: callback.mana,
                        block_index,
                        random_seed: receipt.nonce.clone(),
                    },
                },
                ext,
                receiver,
                awaiting: callback.callback,
                callback_id: Some(res.info.id.clone()),
                mana_accounting: ManaAccounting {
                    accounting_info: callback.accounting_info,
                    mana_refund: callback.mana,
                    gas_used: 0,
                },
                amount: 0,
                callback_info: Some(res.info.clone()),
            },
        )
    } else {
        set_callback(state_update, res.info.id.as_slice(), &callback);
        done(Ok(no_receipts()), 0, Some(res.info.clone()), true)
    }
}

fn exists_log(receiver: &AccountId) -> (m: String)
    ensures
        m@ == spec_exists_log(receiver@),
{
    let mut m = String::from_str("Account ");
    m.append(receiver.as_str());
    m.append(" already exists");
    m
}

fn refund_receipt(
    originator: AccountId,
    receiver: &AccountId,
    nonce: &[u8],
    index: u64,
    amount: Balance,
) -> (r: ReceiptTransaction)
    ensures
        r@ == spec_refund_receipt(originator@, receiver@, nonce@, index, amount),
{
    ReceiptTransaction::new(
        originator,
        receiver.clone(),
        create_nonce_with_nonce(nonce, index),
        ReceiptBody::Refund(amount),
    )
}

fn dispatch_call(
    state_update: &mut StateDbUpdate,
    call: &AsyncCall,
    receipt: &ReceiptTransaction,
    receiver: Account,
    block_index: BlockIndex,
    logs: &mut Vec<LogEntry>,
) -> (r: ReceiptStep)
    requires
        old(state_update).wf(),
    ensures
        only_staged(old(state_update), final(state_update)),
        ({
            let started = spec_dispatch_call(
                old(state_update)@,
                call@,
                receipt@,
                receiver@,
                block_index,
            );
            &&& r@ == started.step
            &&& final(state_update)@ == started.state
            &&& views(final(logs)@) == views(old(logs)@) + started.logs
        }),
{
    let mut receiver = receiver;
    proof {
        assert(views(logs@) + Seq::<Seq<char>>::empty() =~= views(logs@));
    }
    if call.method_name.len() == 0 {
        if call.amount > 0 {
            let result = deposit(state_update, call.amount, &receipt.receiver, &mut receiver);
            done(result, call.amount, None, true)
        } else {
            done(Ok(no_receipts()), call.amount, None, true)
        }
    } else if same_bytes(call.method_name.as_slice(), system_method_create_account().as_slice()) {
        let entry = exists_log(&receipt.receiver);
        proof {
            lemma_views_push(logs@, entry);
            assert(views(logs@).push(entry@) =~= views(logs@) + seq![entry@]);
        }
        logs.push(entry);
        let refund = refund_receipt(
            system_account(),
            &receipt.originator,
            receipt.nonce.as_slice(),
            0,
            call.amount,
        );
        let receipts = vec![refund];
        assert(views(receipts@) =~= seq![receipts@[0]@]);
        done(Ok(receipts), call.amount, None, true)
    } else if same_bytes(call.method_name.as_slice(), system_method_deploy().as_slice()) {
        let result = redeploy(state_update, call, &receipt.receiver, &mut receiver);
        done(result, call.amount, None, true)
    } else {
        match apply_async_call(state_update, call, receipt, receiver, block_index) {
            Ok(pending) => ReceiptStep::Run(pending),
            Err(e) => done(Err(e), call.amount, copy_opt_info(&call.callback), true),
        }
    }
}

fn dispatch_absent(state_update: &mut StateDbUpdate, receipt: &ReceiptTransaction) -> (r: ReceiptStep)
    requires
        old(state_update).wf(),
    ensures
        only_staged(old(state_update), final(state_update)),
        ({
            let started = spec_dispatch_absent(old(state_update)@, receipt@);
            &&& r@ == started.step
            &&& final(state_update)@ == started.state
            &&& started.logs == Seq::<Seq<char>>::empty()
        }),
{
    match &receipt.body {
        ReceiptBody::NewCall(call) => {
            let result = if same_bytes(
                call.method_name.as_slice(),
                system_method_create_account().as_slice(),
            ) {
                system_create_account(state_update, call, &receipt.receiver)
            } else if same_bytes(call.method_name.as_slice(), system_method_deploy().as_slice()) {
                system_deploy(state_update, call, &receipt.receiver)
            } else {
                Err(RuntimeError::about(ErrorKind::ReceiverNotFound, &receipt.receiver))
            };
            done(result, call.amount, None, false)
        },
        _ => done(
            Err(RuntimeError::about(ErrorKind::ReceiverNotFound, &receipt.receiver)),
            0,
            None,
            false,
        ),
    }
}

/// Dispatches a receipt on its receiver and its body, up to the point
/// where a method has to be run.
pub fn dispatch_receipt(
    state_update: &mut StateDbUpdate,
    receipt: &ReceiptTransaction,
    block_index: BlockIndex,
    logs: &mut Vec<LogEntry>,
) -> (r: ReceiptStep)
    requires
        old(state_update).wf(),
    ensures
        only_staged(old(state_update), final(state_update)),
        ({
            let started = spec_dispatch_receipt(old(state_update)@, receipt@, block_index);
            &&& r@ == started.step
            &&& final(state_update)@ == started.state
            &&& views(final(logs)@) == views(old(logs)@) + started.logs
        }),
{
    proof {
        assert(views(logs@) + Seq::<Seq<char>>::empty() =~= views(logs@));
    }
    let mut receiver = match get_account(state_update, &receipt.receiver) {
        Some(receiver) => receiver,
        None => {
            return dispatch_absent(state_update, receipt);
        },
    };
    match &receipt.body {
        ReceiptBody::NewCall(call) => dispatch_call(
            state_update,
            call,
            receipt,
            receiver,
            block_index,
            logs,
        ),
        ReceiptBody::Callback(res) => apply_callback(
            state_update,
            res,
            receipt,
            receiver,
            block_index,
        ),
        ReceiptBody::Refund(amount) => {
            let result = deposit(state_update, *amount, &receipt.receiver, &mut receiver);
            done(result, 0, None, true)
        },
        ReceiptBody::ManaAccounting(accounting) => {
            if get_tx_stake(state_update, &accounting.accounting_info).is_some() {
                let result = mana_accounting(state_update, block_index, accounting);
                done(result, 0, None, true)
            } else {
                ReceiptStep::Fatal(RuntimeError::plain(ErrorKind::TxStakeNotFound))
            }
        },
    }
}

// ---------------------------------------------------------------------------
// After a run
// ---------------------------------------------------------------------------
/// What a run came to: the result, the state, what the run used, what it
/// logged, and the account that ran it.
pub ghost struct Ran {
    pub result: Applied,
    pub state: StateMap,
    pub accounting: ManaAccountingView,
    pub logs: Seq<Seq<char>>,
    pub receiver: AccountView,
}

/// The error of a run that the executor reports with `detail`.
pub open spec fn spec_run_error(pending: PendingView, started: bool, detail: Seq<char>) -> RuntimeErrorView {
    spec_about(
        if pending.callback_id is Some {
            ErrorKind::CallbackExecutionFailed
        } else if started {
            ErrorKind::ExecutionFailed
        } else {
            ErrorKind::PreparationFailed
        },
        detail,
    )
}

/// A run that could not start fails and uses nothing. A run that started
/// has used its gas and logged its entries; it fails where the method
/// failed or where what it returned cannot be turned into receipts, and
/// otherwise the account that ran it has the balance that the run left.
pub open spec fn spec_ran(
    pending: PendingView,
    state: StateMap,
    outcome: Result<ExecutionOutcomeView, Seq<char>>,
) -> Ran {
    match outcome {
        Err(e) => Ran {
            result: Err(spec_run_error(pending, false, e)),
            state,
            accounting: pending.mana_accounting,
            logs: Seq::empty(),
            receiver: pending.receiver,
        },
        Ok(o) => {
            let accounting = ManaAccountingView {
                mana_refund: o.mana_left,
                gas_used: o.gas_used,
                ..pending.mana_accounting
            };
            match o.return_data {
                Err(e) => Ran {
                    result: Err(spec_run_error(pending, true, e)),
                    state,
                    accounting,
                    logs: o.logs,
                    receiver: pending.receiver,
                },
                Ok(data) => {
                    let mapped = spec_return_data_to_receipts(
                        pending.ext,
                        state,
                        data,
                        pending.awaiting,
                        pending.request.context.sender_id,
                        pending.request.context.account_id,
                    );
                    Ran {
                        result: mapped.result,
                        state: mapped.state,
                        accounting,
                        logs: o.logs,
                        receiver: if mapped.result is Ok {
                            AccountView { amount: o.balance, ..pending.receiver }
                        } else {
                            pending.receiver
                        },
                    }
                },
            }
        },
    }
}

/// Whether the method ran to its end.
pub open spec fn spec_returned(outcome: Result<ExecutionOutcomeView, Seq<char>>) -> bool {
    outcome is Ok && outcome->Ok_0.return_data is Ok
}

/// What the dispatch of a receipt gave after its run, with the state
/// staged and the state committed.
pub ghost struct Finished {
    pub dispatched: DispatchedView,
    pub state: StateMap,
    pub committed: StateMap,
    pub logs: Seq<Seq<char>>,
}

/// After the run of a call, the account that ran it is stored, if the
/// method ran to its end. After the run of a callback, the callback leaves
/// the state: with the account stored where the run succeeded, and
/// otherwise with everything else that the receipt staged dropped and the
/// removal committed.
pub open spec fn spec_finish_execution(
    state: StateMap,
    committed: StateMap,
    pending: PendingView,
    outcome: Result<ExecutionOutcomeView, Seq<char>>,
) -> Finished {
    let ran = spec_ran(pending, state, outcome);
    let receiver_id = pending.request.context.account_id;
    let dispatched = DispatchedView {
        result: ran.result,
        amount: pending.amount,
        callback_info: pending.callback_info,
        receiver_exists: true,
        mana_accounting: ran.accounting,
    };
    match pending.callback_id {
        None => Finished {
            dispatched,
            state: if spec_returned(outcome) {
                spec_set_account(ran.state, receiver_id, ran.receiver)
            } else {
                ran.state
            },
            committed,
            logs: ran.logs,
        },
        Some(id) => if ran.result is Err {
            Finished {
                dispatched,
                state: committed.remove(spec_callback_key(id)),
                committed: committed.remove(spec_callback_key(id)),
                logs: ran.logs,
            }
        } else {
            Finished {
                dispatched,
                state: spec_set_account(
                    ran.state.remove(spec_callback_key(id)),
                    receiver_id,
                    ran.receiver,
                ),
                committed,
                logs: ran.logs,
            }
        },
    }
}

fn run_error(is_callback: bool, started: bool, detail: &String) -> (e: RuntimeError)
    ensures
        e@ == spec_about(
            if is_callback {
                ErrorKind::CallbackExecutionFailed
            } else if started {
                ErrorKind::ExecutionFailed
            } else {
                ErrorKind::PreparationFailed
            },
            detail@,
        ),
{
    if is_callback {
        RuntimeError::about(ErrorKind::CallbackExecutionFailed, detail)
    } else if started {
        RuntimeError::about(ErrorKind::ExecutionFailed, detail)
    } else {
        RuntimeError::about(ErrorKind::PreparationFailed, detail)
    }
}

/// Takes the result of the run that a receipt waited for and completes
/// the dispatch of the receipt.
pub fn finish_execution(
    state_update: &mut StateDbUpdate,
    pending: PendingExecution,
    outcome: ExecutionResult,
    logs: &mut Vec<LogEntry>,
) -> (d: Dispatched)
    requires
        old(state_update).wf(),
    ensures
        same_base(old(state_update), final(state_update)),
        ({
            let fin = spec_finish_execution(
                old(state_update)@,
                old(state_update).committed(),
                pending@,
                execution_view(outcome),
            );
            &&& d@ == fin.dispatched
            &&& final(state_update)@ == fin.state
            &&& final(state_update).committed() == fin.committed
            &&& views(final(logs)@) == views(old(logs)@) + fin.logs
        }),
{
    let PendingExecution {
        request,
        ext,
        receiver,
        awaiting,
        callback_id,
        mana_accounting,
        amount,
        callback_info,
    } = pending;
    let mut ext = ext;
    let mut receiver = receiver;
    let mut mana_accounting = mana_accounting;
    let is_callback = callback_id.is_some();
    let mut returned = false;
    proof {
        assert(views(logs@) + Seq::<Seq<char>>::empty() =~= views(logs@));
    }
    let result = match outcome {
        Err(e) => Err(run_error(is_callback, false, &e)),
        Ok(o) => {
            let ExecutionOutcome { gas_used, mana_left, logs: run_logs, balance, return_data } = o;
            let mut run_logs = run_logs;
            mana_accounting.gas_used = gas_used;
            mana_accounting.mana_refund = mana_left;
            proof {
                lemma_views_concat(logs@, run_logs@);
            }
            logs.append(&mut run_logs);
            match return_data {
                Err(e) => Err(run_error(is_callback, true, &e)),
                Ok(data) => {
                    returned = true;
                    let mapped = return_data_to_receipts(
                        &mut ext,
                        state_update,
                        data,
                        &awaiting,
                        &request.context.sender_id,
                        &request.context.account_id,
                    );
                    if mapped.is_ok() {
                        receiver.amount = balance;
                    }
                    mapped
                },
            }
        },
    };
    match callback_id {
        None => {
            if returned {
                set_account(state_update, &request.context.account_id, &receiver);
            }
        },
        Some(id) => {
            if result.is_err() {
                state_update.rollback();
                remove_callback(state_update, id.as_slice());
                state_update.commit();
            } else {
                remove_callback(state_update, id.as_slice());
                set_account(state_update, &request.context.account_id, &receiver);
            }
        },
    }
    Dispatched { result, amount, callback_info, receiver_exists: true, mana_accounting }
}

// ---------------------------------------------------------------------------
// Compensating receipts
// ---------------------------------------------------------------------------
/// The receipts of a dispatch are sent. Where the dispatch failed, the
/// amount that the receipt carried goes back to its originator, from the
/// receiver or, where there is none, from the system account; and the
/// slot that awaits the result gets none. Where a method ran, what it
/// used is sent to the originator of the bucket that paid. Each receipt
/// made here takes the identifier whose number is its place among
/// `new_receipts`, under the identifier of the receipt applied.
pub open spec fn spec_compose(
    receipt: ReceiptView,
    d: DispatchedView,
    new_receipts: Seq<ReceiptView>,
) -> (Seq<ReceiptView>, Result<(), RuntimeErrorView>) {
    let (sent, result) = match d.result {
        Ok(receipts) => (new_receipts + receipts, Ok(())),
        Err(e) => {
            let refunded = if d.amount > 0 {
                new_receipts.push(
                    spec_refund_receipt(
                        if d.receiver_exists {
                            receipt.receiver
                        } else {
                            spec_system_account()
                        },
                        receipt.originator,
                        receipt.nonce,
                        new_receipts.len() as u64,
                        d.amount,
                    ),
                )
            } else {
                new_receipts
            };
            let answered = match d.callback_info {
                Some(info) => refunded.push(
                    ReceiptView {
                        originator: receipt.receiver,
                        receiver: info.receiver,
                        nonce: spec_nonce(receipt.nonce, refunded.len() as u64),
                        body: ReceiptBodyView::Callback(CallbackResultView { info, result: None }),
                    },
                ),
                None => refunded,
            };
            (answered, Err(e))
        },
    };
    let accounted = if d.mana_accounting.mana_refund > 0 || d.mana_accounting.gas_used > 0 {
        sent.push(
            ReceiptView {
                originator: receipt.receiver,
                receiver: d.mana_accounting.accounting_info.originator,
                nonce: spec_nonce(receipt.nonce, sent.len() as u64),
                body: ReceiptBodyView::ManaAccounting(d.mana_accounting),
            },
        )
    } else {
        sent
    };
    (accounted, result)
}

/// Appends the receipts of a dispatch and the compensating receipts to
/// `new_receipts`, and returns whether the dispatch succeeded.
pub fn compose_receipts(
    receipt: &ReceiptTransaction,
    dispatched: Dispatched,
    new_receipts: &mut Vec<ReceiptTransaction>,
) -> (r: Result<(), RuntimeError>)
    ensures
        ({
            let (sent, result) = spec_compose(receipt@, dispatched@, views(old(new_receipts)@));
            &&& views(final(new_receipts)@) == sent
            &&& match r {
                Ok(()) => result == Ok::<(), RuntimeErrorView>(()),
                Err(e) => result == Err::<(), RuntimeErrorView>(e@),
            }
        }),
{
    let Dispatched { result, amount, callback_info, receiver_exists, mana_accounting } = dispatched;
    let res = match result {
        Ok(receipts) => {
            let mut receipts = receipts;
            proof {
                lemma_views_concat(new_receipts@, receipts@);
            }
            new_receipts.append(&mut receipts);
            Ok(())
        },
        Err(e) => {
            if amount > 0 {
                let from = if receiver_exists {
                    receipt.receiver.clone()
                } else {
                    system_account()
                };
                let refund = refund_receipt(
                    from,
                    &receipt.originator,
                    receipt.nonce.as_slice(),
                    new_receipts.len() as u64,
                    amount,
                );
                proof {
                    lemma_views_push(new_receipts@, refund);
                }
                new_receipts.push(refund);
            }
            if let Some(info) = callback_info {
                let answer = ReceiptTransaction::new(
                    receipt.receiver.clone(),
                    info.receiver.clone(),
                    create_nonce_with_nonce(receipt.nonce.as_slice(), new_receipts.len() as u64),
                    ReceiptBody::Callback(CallbackResult::new(info, None)),
                );
                proof {
                    lemma_views_push(new_receipts@, answer);
                }
                new_receipts.push(answer);
            }
            Err(e)
        },
    };
    if mana_accounting.mana_refund > 0 || mana_accounting.gas_used > 0 {
        let accounting = ReceiptTransaction::new(
            receipt.receiver.clone(),
            mana_accounting.accounting_info.originator.clone(),
            create_nonce_with_nonce(receipt.nonce.as_slice(), new_receipts.len() as u64),
            ReceiptBody::ManaAccounting(mana_accounting),
        );
        proof {
            lemma_views_push(new_receipts@, accounting);
        }
        new_receipts.push(accounting);
    }
    res
}

// ---------------------------------------------------------------------------
// The applier
// ---------------------------------------------------------------------------
/// Where the application of a receipt stands.
#[derive(Debug, PartialEq, Eq)]
pub enum ReceiptProgress {
    /// The receipt is applied: it succeeded, or failed for the reason given.
    Applied(Result<(), RuntimeError>),
    /// A method has to be run; `resume_receipt` takes its result.
    Suspended(PendingExecution),
    /// The state is corrupt: the apply step cannot go on.
    Fatal(RuntimeError),
}

/// Where the application of a receipt stands, in views.
pub ghost enum ReceiptProgressView {
    Applied(Result<(), RuntimeErrorView>),
    Suspended(PendingView),
    Fatal(RuntimeErrorView),
}

impl View for ReceiptProgress {
    type V = ReceiptProgressView;

    open spec fn view(&self) -> ReceiptProgressView {
        match self {
            ReceiptProgress::Applied(r) => ReceiptProgressView::Applied(
                match r {
                    Ok(()) => Ok(()),
                    Err(e) => Err(e@),
                },
            ),
            ReceiptProgress::Suspended(p) => ReceiptProgressView::Suspended(p@),
            ReceiptProgress::Fatal(e) => ReceiptProgressView::Fatal(e@),
        }
    }
}

/// Applying a receipt, up to the point where a method has to run: where
/// it stands, the receipts sent, the state staged, and the logs.
pub ghost struct ReceiptOutcome {
    pub progress: ReceiptProgressView,
    pub new_receipts: Seq<ReceiptView>,
    pub state: StateMap,
    pub logs: Seq<Seq<char>>,
}

/// Applying a receipt, up to the point where a method has to run.
#[verifier::opaque]
pub open spec fn spec_apply_receipt(
    state: StateMap,
    receipt: ReceiptView,
    new_receipts: Seq<ReceiptView>,
    block_index: BlockIndex,
) -> ReceiptOutcome {
    let started = spec_dispatch_receipt(state, receipt, block_index);
    match started.step {
        ReceiptStepView::Done(d) => {
            let (sent, result) = spec_compose(receipt, d, new_receipts);
            ReceiptOutcome {
                progress: ReceiptProgressView::Applied(result),
                new_receipts: sent,
                state: started.state,
                logs: started.logs,
            }
        },
        ReceiptStepView::Run(pending) => ReceiptOutcome {
            progress: ReceiptProgressView::Suspended(pending),
            new_receipts,
            state: started.state,
            logs: started.logs,
        },
        ReceiptStepView::Fatal(e) => ReceiptOutcome {
            progress: ReceiptProgressView::Fatal(e),
            new_receipts,
            state: started.state,
            logs: started.logs,
        },
    }
}

/// Applies a receipt to the staged state and appends the receipts that
/// it sends to `new_receipts`. Where the receipt calls a method, the
/// function stops before the run and hands out what is to be run. Where
/// the receipt accounts for a run and the bucket that paid is not in the
/// state, the function says so and does nothing.
pub fn apply_receipt(
    state_update: &mut StateDbUpdate,
    receipt: &ReceiptTransaction,
    new_receipts: &mut Vec<ReceiptTransaction>,
    block_index: BlockIndex,
    logs: &mut Vec<LogEntry>,
) -> (r: ReceiptProgress)
    requires
        old(state_update).wf(),
    ensures
        only_staged(old(state_update), final(state_update)),
        ({
            let outcome = spec_apply_receipt(
                old(state_update)@,
                receipt@,
                views(old(new_receipts)@),
                block_index,
            );
            &&& r@ == outcome.progress
            &&& views(final(new_receipts)@) == outcome.new_receipts
            &&& final(state_update)@ == outcome.state
            &&& views(final(logs)@) == views(old(logs)@) + outcome.logs
        }),
{
    proof {
        reveal(spec_apply_receipt);
    }
    match dispatch_receipt(state_update, receipt, block_index, logs) {
        ReceiptStep::Done(dispatched) => ReceiptProgress::Applied(
            compose_receipts(receipt, dispatched, new_receipts),
        ),
        ReceiptStep::Run(pending) => ReceiptProgress::Suspended(pending),
        ReceiptStep::Fatal(e) => ReceiptProgress::Fatal(e),
    }
}

/// Applying a receipt, from the result of its run on: the result, the
/// receipts sent, the state staged and committed, and the logs.
pub ghost struct ResumedOutcome {
    pub result: Result<(), RuntimeErrorView>,
    pub new_receipts: Seq<ReceiptView>,
    pub state: StateMap,
    pub committed: StateMap,
    pub logs: Seq<Seq<char>>,
}

/// Applying a receipt, from the result of its run on.
pub open spec fn spec_resume_receipt(
    state: StateMap,
    committed: StateMap,
    receipt: ReceiptView,
    pending: PendingView,
    outcome: Result<ExecutionOutcomeView, Seq<char>>,
    new_receipts: Seq<ReceiptView>,
) -> ResumedOutcome {
    let fin = spec_finish_execution(state, committed, pending, outcome);
    let (sent, result) = spec_compose(receipt, fin.dispatched, new_receipts);
    ResumedOutcome {
        result,
        new_receipts: sent,
        state: fin.state,
        committed: fin.committed,
        logs: fin.logs,
    }
}

/// Completes the application of a receipt with the result of its run.
pub fn resume_receipt(
    state_update: &mut StateDbUpdate,
    receipt: &ReceiptTransaction,
    pending: PendingExecution,
    outcome: ExecutionResult,
    new_receipts: &mut Vec<ReceiptTransaction>,
    logs: &mut Vec<LogEntry>,
) -> (r: Result<(), RuntimeError>)
    requires
        old(state_update).wf(),
    ensures
        same_base(old(state_update), final(state_update)),
        ({
            let resumed = spec_resume_receipt(
                old(state_update)@,
                old(state_update).committed(),
                receipt@,
                pending@,
                execution_view(outcome),
                views(old(new_receipts)@),
            );
            &&& match r {
                Ok(()) => resumed.result == Ok::<(), RuntimeErrorView>(()),
                Err(e) => resumed.result == Err::<(), RuntimeErrorView>(e@),
            }
            &&& views(final(new_receipts)@) == resumed.new_receipts
            &&& final(state_update)@ == resumed.state
            &&& final(state_update).committed() == resumed.committed
            &&& views(final(logs)@) == views(old(logs)@) + resumed.logs
        }),
{
    let dispatched = finish_execution(state_update, pending, outcome, logs);
    compose_receipts(receipt, dispatched, new_receipts)
}

} // verus!
