//! The records that transactions and receipts are made of.
use crate::bytes::{opt_bytes, opt_bytes_list, opt_chars};
use vstd::prelude::*;

verus! {

/// The id of an account.
pub type AccountId = String;

/// An amount of coins.
pub type Balance = u64;

/// An amount of mana.
pub type Mana = u32;

/// An amount of gas.
pub type Gas = u64;

/// The number of a block.
pub type BlockIndex = u64;

/// The number of a shard.
pub type ShardId = u32;

/// The root of a state.
pub type MerkleHash = Vec<u8>;

/// A public key of 32 bytes.
pub type PublicKey = Vec<u8>;

/// The identifier of a callback.
pub type CallbackId = Vec<u8>;

/// The identifier of a receipt.
pub type ReceiptId = Vec<u8>;

/// One line of what an input logged.
pub type LogEntry = String;

/// The views of the items of a list.
pub open spec fn views<T: View>(a: Seq<T>) -> Seq<T::V> {
    Seq::new(a.len(), |i: int| a[i]@)
}

/// The views of a list with one more item are those of the list and that of the item.
pub proof fn lemma_views_push<T: View>(a: Seq<T>, v: T)
    ensures
        views(a.push(v)) == views(a).push(v@),
{
    assert(views(a.push(v)) =~= views(a).push(v@));
}

/// The views of two lists joined are the views of the one followed by those of the other.
pub proof fn lemma_views_concat<T: View>(a: Seq<T>, b: Seq<T>)
    ensures
        views(a + b) == views(a) + views(b),
{
    assert(views(a + b) =~= views(a) + views(b));
}

// ---------------------------------------------------------------------------
// Accounting info
// ---------------------------------------------------------------------------
/// Names the mana bucket that pays for a call: the originator's bucket for
/// one contract, or the originator's general bucket.
#[derive(Debug, PartialEq, Eq)]
pub struct AccountingInfo {
    pub originator: AccountId,
    pub contract_id: Option<AccountId>,
}

/// What a `AccountingInfo` holds, as contracts speak of it.
pub ghost struct AccountingInfoView {
    pub originator: Seq<char>,
    pub contract_id: Option<Seq<char>>,
}

impl View for AccountingInfo {
    type V = AccountingInfoView;

    open spec fn view(&self) -> AccountingInfoView {
        AccountingInfoView {
            originator: self.originator@,
            contract_id: opt_chars(self.contract_id),
        }
    }
}

impl Clone for AccountingInfo {
    fn clone(&self) -> (r: Self)
        ensures
            r@ == self@,
    {
        AccountingInfo {
            originator: self.originator.clone(),
            contract_id: match &self.contract_id {
                Some(c) => Some(c.clone()),
                None => None,
            },
        }
    }
}

// ---------------------------------------------------------------------------
// Callbacks
// ---------------------------------------------------------------------------
/// Where the result of a call is awaited: slot `result_index` of the
/// callback `id`, which lives on the account `receiver`.
#[derive(Debug, PartialEq, Eq)]
pub struct CallbackInfo {
    pub id: CallbackId,
    pub result_index: u64,
    pub receiver: AccountId,
}

/// What a `CallbackInfo` holds, as contracts speak of it.
pub ghost struct CallbackInfoView {
    pub id: Seq<u8>,
    pub result_index: u64,
    pub receiver: Seq<char>,
}

impl View for CallbackInfo {
    type V = CallbackInfoView;

    open spec fn view(&self) -> CallbackInfoView {
        CallbackInfoView { id: self.id@, result_index: self.result_index, receiver: self.receiver@ }
    }
}

impl Clone for CallbackInfo {
    fn clone(&self) -> (r: Self)
        ensures
            r@ == self@,
    {
        CallbackInfo {
            id: self.id.clone(),
            result_index: self.result_index,
            receiver: self.receiver.clone(),
        }
    }
}

impl CallbackInfo {
    /// The target: slot `result_index` of the callback `id` on `receiver`.
    pub fn new(id: CallbackId, result_index: u64, receiver: AccountId) -> (r: Self)
        ensures
            r@ == (CallbackInfoView { id: id@, result_index, receiver: receiver@ }),
    {
        CallbackInfo { id, result_index, receiver }
    }
}

/// The view of an optional callback target.
pub open spec fn opt_info(o: Option<CallbackInfo>) -> Option<CallbackInfoView> {
    match o {
        Some(i) => Some(i@),
        None => None,
    }
}

/// A copy of an optional callback target.
pub fn copy_opt_info(o: &Option<CallbackInfo>) -> (r: Option<CallbackInfo>)
    ensures
        opt_info(r) == opt_info(*o),
{
    match o {
        Some(i) => Some(i.clone()),
        None => None,
    }
}

/// One awaited result, delivered to its slot.
#[derive(Clone, Debug, PartialEq, Eq)]
pub struct CallbackResult {
    pub info: CallbackInfo,
    pub result: Option<Vec<u8>>,
}

/// What a `CallbackResult` holds, as contracts speak of it.
pub ghost struct CallbackResultView {
    pub info: CallbackInfoView,
    pub result: Option<Seq<u8>>,
}

impl View for CallbackResult {
    type V = CallbackResultView;

    open spec fn view(&self) -> CallbackResultView {
        CallbackResultView { info: self.info@, result: opt_bytes(self.result) }
    }
}

impl CallbackResult {
    /// The result `result` for the slot `info`.
    pub fn new(info: CallbackInfo, result: Option<Vec<u8>>) -> (r: Self)
        ensures
            r@ == (CallbackResultView { info: info@, result: opt_bytes(result) }),
    {
        CallbackResult { info, result }
    }
}

/// A join that waits for its results before its method is run.
#[derive(Clone, Debug, PartialEq, Eq)]
pub struct Callback {
    pub method_name: Vec<u8>,
    pub args: Vec<u8>,
    pub results: Vec<Option<Vec<u8>>>,
    pub mana: Mana,
    pub callback: Option<CallbackInfo>,
    pub result_counter: u64,
    pub accounting_info: AccountingInfo,
}

/// What a `Callback` holds, as contracts speak of it.
pub ghost struct CallbackView {
    pub method_name: Seq<u8>,
    pub args: Seq<u8>,
    pub results: Seq<Option<Seq<u8>>>,
    pub mana: Mana,
    pub callback: Option<CallbackInfoView>,
    pub result_counter: u64,
    pub accounting_info: AccountingInfoView,
}

impl View for Callback {
    type V = CallbackView;

    open spec fn view(&self) -> CallbackView {
        CallbackView {
            method_name: self.method_name@,
            args: self.args@,
            results: opt_bytes_list(self.results@),
            mana: self.mana,
            callback: opt_info(self.callback),
            result_counter: self.result_counter,
            accounting_info: self.accounting_info@,
        }
    }
}

impl Callback {
    /// A callback that awaits nothing yet.
    pub fn new(method_name: Vec<u8>, args: Vec<u8>, mana: Mana, accounting_info: AccountingInfo) -> (r:
        Self)
        ensures
            r@ == (CallbackView {
                method_name: method_name@,
                args: args@,
                results: Seq::empty(),
                mana,
                callback: None,
                result_counter: 0,
                accounting_info: accounting_info@,
            }),
    {
        let r = Callback {
            method_name,
            args,
            results: Vec::new(),
            mana,
            callback: None,
            result_counter: 0,
            accounting_info,
        };
        assert(r@.results =~= Seq::empty());
        r
    }
}

// ---------------------------------------------------------------------------
// Receipts
// ---------------------------------------------------------------------------
/// A call sent to an account: a deposit when the method name is empty, a
/// system method, or a method of the receiver's contract.
#[derive(Clone, Debug, PartialEq, Eq)]
pub struct AsyncCall {
    pub amount: Balance,
    pub mana: Mana,
    pub method_name: Vec<u8>,
    pub args: Vec<u8>,
    pub callback: Option<CallbackInfo>,
    pub accounting_info: AccountingInfo,
}

/// What a `AsyncCall` holds, as contracts speak of it.
pub ghost struct AsyncCallView {
    pub amount: Balance,
    pub mana: Mana,
    pub method_name: Seq<u8>,
    pub args: Seq<u8>,
    pub callback: Option<CallbackInfoView>,
    pub accounting_info: AccountingInfoView,
}

impl View for AsyncCall {
    type V = AsyncCallView;

    open spec fn view(&self) -> AsyncCallView {
        AsyncCallView {
            amount: self.amount,
            mana: self.mana,
            method_name: self.method_name@,
            args: self.args@,
            callback: opt_info(self.callback),
            accounting_info: self.accounting_info@,
        }
    }
}

/// The call that `AsyncCall::new` builds.
pub open spec fn spec_async_call(
    method_name: Seq<u8>,
    args: Seq<u8>,
    amount: Balance,
    mana: Mana,
    accounting_info: AccountingInfoView,
) -> AsyncCallView {
    AsyncCallView { amount, mana, method_name, args, callback: None, accounting_info }
}

impl AsyncCall {
    /// A call that nobody awaits.
    pub fn new(
        method_name: Vec<u8>,
        args: Vec<u8>,
        amount: Balance,
        mana: Mana,
        accounting_info: AccountingInfo,
    ) -> (r: Self)
        ensures
            r@ == spec_async_call(method_name@, args@, amount, mana, accounting_info@),
    {
        AsyncCall { amount, mana, method_name, args, callback: None, accounting_info }
    }
}

/// What one execution used: the mana handed back and the gas burnt, for the
/// bucket that paid.
#[derive(Clone, Debug, PartialEq, Eq)]
pub struct ManaAccounting {
    pub accounting_info: AccountingInfo,
    pub mana_refund: Mana,
    pub gas_used: Gas,
}

/// What a `ManaAccounting` holds, as contracts speak of it.
pub ghost struct ManaAccountingView {
    pub accounting_info: AccountingInfoView,
    pub mana_refund: Mana,
    pub gas_used: Gas,
}

impl View for ManaAccounting {
    type V = ManaAccountingView;

    open spec fn view(&self) -> ManaAccountingView {
        ManaAccountingView {
            accounting_info: self.accounting_info@,
            mana_refund: self.mana_refund,
            gas_used: self.gas_used,
        }
    }
}

/// The accounting of an input that ran nothing.
pub open spec fn spec_no_accounting() -> ManaAccountingView {
    ManaAccountingView {
        accounting_info: AccountingInfoView { originator: Seq::empty(), contract_id: None },
        mana_refund: 0,
        gas_used: 0,
    }
}

impl Default for ManaAccounting {
    fn default() -> (r: Self)
        ensures
            r@ == spec_no_accounting(),
    {
        ManaAccounting {
            accounting_info: AccountingInfo { originator: String::new(), contract_id: None },
            mana_refund: 0,
            gas_used: 0,
        }
    }
}

/// What a receipt carries: a call, a result for a callback, a refund, or the accounting of a run.
#[derive(Clone, Debug, PartialEq, Eq)]
pub enum ReceiptBody {
    NewCall(AsyncCall),
    Callback(CallbackResult),
    Refund(Balance),
    ManaAccounting(ManaAccounting),
}

/// What a `ReceiptBody` holds, as contracts speak of it.
pub ghost enum ReceiptBodyView {
    NewCall(AsyncCallView),
    Callback(CallbackResultView),
    Refund(Balance),
    ManaAccounting(ManaAccountingView),
}

impl View for ReceiptBody {
    type V = ReceiptBodyView;

    open spec fn view(&self) -> ReceiptBodyView {
        match self {
            ReceiptBody::NewCall(c) => ReceiptBodyView::NewCall(c@),
            ReceiptBody::Callback(c) => ReceiptBodyView::Callback(c@),
            ReceiptBody::Refund(a) => ReceiptBodyView::Refund(*a),
            ReceiptBody::ManaAccounting(m) => ReceiptBodyView::ManaAccounting(m@),
        }
    }
}

/// A message from one account to another, routed by the receiver's shard.
#[derive(Clone, Debug, PartialEq, Eq)]
pub struct ReceiptTransaction {
    pub originator: AccountId,
    pub receiver: AccountId,
    pub nonce: Vec<u8>,
    pub body: ReceiptBody,
}

/// What a `ReceiptTransaction` holds, as contracts speak of it.
pub ghost struct ReceiptView {
    pub originator: Seq<char>,
    pub receiver: Seq<char>,
    pub nonce: Seq<u8>,
    pub body: ReceiptBodyView,
}

impl View for ReceiptTransaction {
    type V = ReceiptView;

    open spec fn view(&self) -> ReceiptView {
        ReceiptView {
            originator: self.originator@,
            receiver: self.receiver@,
            nonce: self.nonce@,
            body: self.body@,
        }
    }
}

impl ReceiptTransaction {
    /// A receipt from `originator` to `receiver`.
    pub fn new(originator: AccountId, receiver: AccountId, nonce: Vec<u8>, body: ReceiptBody) -> (r:
        Self)
        ensures
            r@ == (ReceiptView {
                originator: originator@,
                receiver: receiver@,
                nonce: nonce@,
                body: body@,
            }),
    {
        ReceiptTransaction { originator, receiver, nonce, body }
    }
}

/// No receipts.
pub fn no_receipts() -> (r: Vec<ReceiptTransaction>)
    ensures
        views(r@) == Seq::<ReceiptView>::empty(),
{
    let r: Vec<ReceiptTransaction> = Vec::new();
    assert(views(r@) =~= Seq::<ReceiptView>::empty());
    r
}

/// The receipts that one block hands to a shard.
#[derive(Clone, Debug, PartialEq, Eq)]
pub struct ReceiptBlock {
    pub receipts: Vec<ReceiptTransaction>,
}

impl View for ReceiptBlock {
    type V = Seq<ReceiptView>;

    open spec fn view(&self) -> Seq<ReceiptView> {
        views(self.receipts@)
    }
}

/// A proposal to stake `amount` for `account_id` under `public_key`.
#[derive(Clone, Debug, PartialEq, Eq)]
pub struct AuthorityStake {
    pub account_id: AccountId,
    pub public_key: PublicKey,
    pub amount: Balance,
}

/// What a `AuthorityStake` holds, as contracts speak of it.
pub ghost struct AuthorityStakeView {
    pub account_id: Seq<char>,
    pub public_key: Seq<u8>,
    pub amount: Balance,
}

impl View for AuthorityStake {
    type V = AuthorityStakeView;

    open spec fn view(&self) -> AuthorityStakeView {
        AuthorityStakeView {
            account_id: self.account_id@,
            public_key: self.public_key@,
            amount: self.amount,
        }
    }
}

// ---------------------------------------------------------------------------
// Results
// ---------------------------------------------------------------------------
/// Whether an input was applied with success.
#[derive(Clone, Copy, Debug, PartialEq, Eq, Structural)]
pub enum TransactionStatus {
    Unknown,
    Completed,
    Failed,
}

/// What became of one input: its status, what it logged, and the
/// identifiers of the receipts that it produced.
#[derive(Clone, Debug, PartialEq, Eq)]
pub struct TransactionResult {
    pub status: TransactionStatus,
    pub logs: Vec<LogEntry>,
    pub receipts: Vec<Vec<u8>>,
}

/// What a `TransactionResult` holds, as contracts speak of it.
pub ghost struct TransactionResultView {
    pub status: TransactionStatus,
    pub logs: Seq<Seq<char>>,
    pub receipts: Seq<Seq<u8>>,
}

impl View for TransactionResult {
    type V = TransactionResultView;

    open spec fn view(&self) -> TransactionResultView {
        TransactionResultView {
            status: self.status,
            logs: views(self.logs@),
            receipts: views(self.receipts@),
        }
    }
}

impl Default for TransactionResult {
    fn default() -> (r: Self)
        ensures
            r@ == (TransactionResultView {
                status: TransactionStatus::Unknown,
                logs: Seq::empty(),
                receipts: Seq::empty(),
            }),
    {
        let r = TransactionResult {
            status: TransactionStatus::Unknown,
            logs: Vec::new(),
            receipts: Vec::new(),
        };
        assert(r@.logs =~= Seq::empty());
        assert(r@.receipts =~= Seq::empty());
        r
    }
}

} // verus!
