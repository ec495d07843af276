//! The bridge between a running method and the runtime: storage under the
//! account's prefix, identifiers derived from the receipt being applied,
//! and the receipts and callbacks that the method creates.
use crate::bytes::{bytes_list, copy_bytes, opt_bytes, same_bytes};
use crate::executor::{PromiseId, PromiseIdView};
use crate::hash::{create_nonce_with_nonce, spec_nonce};
use crate::keys::{create_storage_key, spec_storage_key};
use crate::records::{set_callback, spec_set_callback};
use crate::state::{only_staged, stored, StateDbUpdate, StateMap};
use crate::types::{
    lemma_views_push, spec_async_call, views, AccountId, AccountingInfo, AccountingInfoView,
    AsyncCall, Balance, Callback, CallbackId, CallbackInfo, CallbackInfoView, CallbackView, Mana,
    ReceiptBody, ReceiptBodyView, ReceiptTransaction, ReceiptView,
};
use vstd::prelude::*;

verus! {

/// Why the bridge refused what a method asked for.
#[derive(Clone, Copy, Debug, PartialEq, Eq, Structural)]
pub enum ExtError {
    /// The promise is not one that a callback can be attached to.
    WrongPromise,
    /// The method did not create the receipt that the promise names.
    PromiseIdNotFound,
    /// The receipt that the promise names is awaited already.
    PromiseAlreadyHasCallback,
}

/// A callback that a method created, with its identifier.
#[derive(Clone, Debug, PartialEq, Eq)]
pub struct PendingCallback {
    pub id: CallbackId,
    pub callback: Callback,
}

impl View for PendingCallback {
    type V = (Seq<u8>, CallbackView);

    open spec fn view(&self) -> (Seq<u8>, CallbackView) {
        (self.id@, self.callback@)
    }
}

/// The bridge of one run.
#[derive(Clone, Debug, PartialEq, Eq)]
pub struct RuntimeExt {
    pub account_id: AccountId,
    pub accounting_info: AccountingInfo,
    pub nonce: u64,
    pub transaction_hash: Vec<u8>,
    pub receipts: Vec<ReceiptTransaction>,
    pub callbacks: Vec<PendingCallback>,
}

/// What a `RuntimeExt` holds, as contracts speak of it.
pub ghost struct RuntimeExtView {
    pub account_id: Seq<char>,
    pub accounting_info: AccountingInfoView,
    pub nonce: u64,
    pub transaction_hash: Seq<u8>,
    pub receipts: Seq<ReceiptView>,
    pub callbacks: Seq<(Seq<u8>, CallbackView)>,
}

impl View for RuntimeExt {
    type V = RuntimeExtView;

    open spec fn view(&self) -> RuntimeExtView {
        RuntimeExtView {
            account_id: self.account_id@,
            accounting_info: self.accounting_info@,
            nonce: self.nonce,
            transaction_hash: self.transaction_hash@,
            receipts: views(self.receipts@),
            callbacks: views(self.callbacks@),
        }
    }
}

/// The bridge at the start of a run.
pub open spec fn spec_new_ext(
    account_id: Seq<char>,
    accounting_info: AccountingInfoView,
    transaction_hash: Seq<u8>,
) -> RuntimeExtView {
    RuntimeExtView {
        account_id,
        accounting_info,
        nonce: 0,
        transaction_hash,
        receipts: Seq::empty(),
        callbacks: Seq::empty(),
    }
}

/// The number of the identifier after `nonce`. It stays at the greatest number.
pub open spec fn spec_next(nonce: u64) -> u64 {
    if nonce < u64::MAX {
        (nonce + 1) as u64
    } else {
        nonce
    }
}

/// Where the receipt with the identifier `id` stands among `receipts`:
/// the first place that holds it, or the length where none does.
pub open spec fn spec_find_receipt(receipts: Seq<ReceiptView>, id: Seq<u8>) -> int
    decreases receipts.len(),
{
    if receipts.len() == 0 {
        0
    } else if receipts[0].nonce == id {
        0
    } else {
        1 + spec_find_receipt(receipts.skip(1), id)
    }
}

/// Where the callback with the identifier `id` stands among `callbacks`.
pub open spec fn spec_find_callback(callbacks: Seq<(Seq<u8>, CallbackView)>, id: Seq<u8>) -> int
    decreases callbacks.len(),
{
    if callbacks.len() == 0 {
        0
    } else if callbacks[0].0 == id {
        0
    } else {
        1 + spec_find_callback(callbacks.skip(1), id)
    }
}

/// The place found is the first that holds the identifier.
pub proof fn lemma_find_receipt(receipts: Seq<ReceiptView>, id: Seq<u8>)
    ensures
        0 <= spec_find_receipt(receipts, id) <= receipts.len(),
        spec_find_receipt(receipts, id) < receipts.len() ==> receipts[spec_find_receipt(
            receipts,
            id,
        )].nonce == id,
        forall|i: int| 0 <= i < spec_find_receipt(receipts, id) ==> (#[trigger] receipts[i]).nonce != id,
    decreases receipts.len(),
{
    if receipts.len() > 0 && receipts[0].nonce != id {
        let rest = receipts.skip(1);
        lemma_find_receipt(rest, id);
        assert forall|i: int| 0 <= i < spec_find_receipt(receipts, id) implies (
        #[trigger] receipts[i]).nonce != id by {
            if i > 0 {
                assert(rest[i - 1] == receipts[i]);
            }
        }
    }
}

/// The place found is the first that holds the identifier.
pub proof fn lemma_find_callback(callbacks: Seq<(Seq<u8>, CallbackView)>, id: Seq<u8>)
    ensures
        0 <= spec_find_callback(callbacks, id) <= callbacks.len(),
        spec_find_callback(callbacks, id) < callbacks.len() ==> callbacks[spec_find_callback(
            callbacks,
            id,
        )].0 == id,
        forall|i: int| 0 <= i < spec_find_callback(callbacks, id) ==> (#[trigger] callbacks[i]).0 != id,
    decreases callbacks.len(),
{
    if callbacks.len() > 0 && callbacks[0].0 != id {
        let rest = callbacks.skip(1);
        lemma_find_callback(rest, id);
        assert forall|i: int| 0 <= i < spec_find_callback(callbacks, id) implies (
        #[trigger] callbacks[i]).0 != id by {
            if i > 0 {
                assert(rest[i - 1] == callbacks[i]);
            }
        }
    }
}

/// The first place that holds the identifier is the place found.
pub proof fn lemma_found_receipt(receipts: Seq<ReceiptView>, id: Seq<u8>, at: int)
    requires
        0 <= at <= receipts.len(),
        forall|i: int| 0 <= i < at ==> (#[trigger] receipts[i]).nonce != id,
        at < receipts.len() ==> receipts[at].nonce == id,
    ensures
        spec_find_receipt(receipts, id) == at,
{
    lemma_find_receipt(receipts, id);
    let f = spec_find_receipt(receipts, id);
    if f < at {
        assert(receipts[f].nonce != id);
    }
}

/// The first place that holds the identifier is the place found.
pub proof fn lemma_found_callback(callbacks: Seq<(Seq<u8>, CallbackView)>, id: Seq<u8>, at: int)
    requires
        0 <= at <= callbacks.len(),
        forall|i: int| 0 <= i < at ==> (#[trigger] callbacks[i]).0 != id,
        at < callbacks.len() ==> callbacks[at].0 == id,
    ensures
        spec_find_callback(callbacks, id) == at,
{
    lemma_find_callback(callbacks, id);
    let f = spec_find_callback(callbacks, id);
    if f < at {
        assert(callbacks[f].0 != id);
    }
}

/// `receipt` with `info` as the target that awaits its result.
pub open spec fn spec_awaited(receipt: ReceiptView, info: CallbackInfoView) -> ReceiptView {
    match receipt.body {
        ReceiptBodyView::NewCall(call) => ReceiptView {
            body: ReceiptBodyView::NewCall(
                crate::types::AsyncCallView { callback: Some(info), ..call },
            ),
            ..receipt
        },
        _ => receipt,
    }
}

/// Whether a callback can be attached to `receipt`, and why not.
pub open spec fn spec_attachable(receipts: Seq<ReceiptView>, at: int) -> Result<(), ExtError> {
    if at >= receipts.len() {
        Err(ExtError::PromiseIdNotFound)
    } else {
        match receipts[at].body {
            ReceiptBodyView::NewCall(call) => if call.callback is Some {
                Err(ExtError::PromiseAlreadyHasCallback)
            } else {
                Ok(())
            },
            _ => Err(ExtError::WrongPromise),
        }
    }
}

/// Attaches the slots `from`, `from + 1`, ... of the callback `callback_id`
/// to the receipts `ids`, in their order, and stops at the first that
/// cannot take one: the receipts as they then are, and why it stopped.
pub open spec fn spec_attach(
    receipts: Seq<ReceiptView>,
    ids: Seq<Seq<u8>>,
    from: int,
    callback_id: Seq<u8>,
    account_id: Seq<char>,
) -> (Seq<ReceiptView>, Result<(), ExtError>)
    decreases ids.len() - from,
{
    if from < 0 || from >= ids.len() {
        (receipts, Ok(()))
    } else {
        let at = spec_find_receipt(receipts, ids[from]);
        match spec_attachable(receipts, at) {
            Err(e) => (receipts, Err(e)),
            Ok(()) => spec_attach(
                receipts.update(
                    at,
                    spec_awaited(
                        receipts[at],
                        CallbackInfoView {
                            id: callback_id,
                            result_index: from as u64,
                            receiver: account_id,
                        },
                    ),
                ),
                ids,
                from + 1,
                callback_id,
                account_id,
            ),
        }
    }
}

/// The state after the callbacks were written to it, in their order.
pub open spec fn spec_flush(state: StateMap, callbacks: Seq<(Seq<u8>, CallbackView)>) -> StateMap
    decreases callbacks.len(),
{
    if callbacks.len() == 0 {
        state
    } else {
        spec_set_callback(
            spec_flush(state, callbacks.drop_last()),
            callbacks.last().0,
            callbacks.last().1,
        )
    }
}

impl RuntimeExtView {
    /// The bridge after it gave out one identifier.
    pub open spec fn stepped(self) -> RuntimeExtView {
        RuntimeExtView { nonce: spec_next(self.nonce), ..self }
    }

    /// The identifier that the bridge gives out next.
    pub open spec fn next_id(self) -> Seq<u8> {
        spec_nonce(self.transaction_hash, self.nonce)
    }

    /// The bridge after the method created a call to `account_id`.
    pub open spec fn promise_create(
        self,
        account_id: Seq<char>,
        method_name: Seq<u8>,
        arguments: Seq<u8>,
        mana: Mana,
        amount: Balance,
    ) -> RuntimeExtView {
        RuntimeExtView {
            receipts: self.receipts.push(
                ReceiptView {
                    originator: self.account_id,
                    receiver: account_id,
                    nonce: self.next_id(),
                    body: ReceiptBodyView::NewCall(
                        spec_async_call(method_name, arguments, amount, mana, self.accounting_info),
                    ),
                },
            ),
            ..self.stepped()
        }
    }

    /// The receipts that a promise stands for, if a callback can wait for it.
    pub open spec fn awaited_ids(promise: PromiseIdView) -> Option<Seq<Seq<u8>>> {
        match promise {
            PromiseIdView::Receipt(id) => Some(seq![id]),
            PromiseIdView::Joiner(ids) => Some(ids),
            PromiseIdView::Callback(_) => None,
        }
    }

    /// The bridge after the method asked for `method_name` to be run on
    /// the results of `promise`, and what the method is told.
    pub open spec fn promise_then(
        self,
        promise: PromiseIdView,
        method_name: Seq<u8>,
        arguments: Seq<u8>,
        mana: Mana,
    ) -> (RuntimeExtView, Result<PromiseIdView, ExtError>) {
        let callback_id = self.next_id();
        let stepped = self.stepped();
        match Self::awaited_ids(promise) {
            None => (stepped, Err(ExtError::WrongPromise)),
            Some(ids) => {
                let (receipts, attached) = spec_attach(
                    self.receipts,
                    ids,
                    0,
                    callback_id,
                    self.account_id,
                );
                match attached {
                    Err(e) => (RuntimeExtView { receipts, ..stepped }, Err(e)),
                    Ok(()) => (
                        RuntimeExtView {
                            receipts,
                            callbacks: self.callbacks.push(
                                (
                                    callback_id,
                                    CallbackView {
                                        method_name,
                                        args: arguments,
                                        results: Seq::new(ids.len(), |i: int| None),
                                        mana,
                                        callback: None,
                                        result_counter: 0,
                                        accounting_info: self.accounting_info,
                                    },
                                ),
                            ),
                            ..stepped
                        },
                        Ok(PromiseIdView::Callback(callback_id)),
                    ),
                }
            },
        }
    }
}

impl RuntimeExtView {
    /// The bridge after `info` was attached to the receipt `id` that the
    /// method created, and whether that could be done.
    pub open spec fn await_receipt(self, id: Seq<u8>, info: CallbackInfoView) -> (
        RuntimeExtView,
        Result<(), ExtError>,
    ) {
        let at = spec_find_receipt(self.receipts, id);
        match spec_attachable(self.receipts, at) {
            Err(e) => (self, Err(e)),
            Ok(()) => (
                RuntimeExtView {
                    receipts: self.receipts.update(at, spec_awaited(self.receipts[at], info)),
                    ..self
                },
                Ok(()),
            ),
        }
    }

    /// The bridge after `info` was attached to the callback `id` that the
    /// method created, and whether that could be done.
    pub open spec fn await_callback(self, id: Seq<u8>, info: CallbackInfoView) -> (
        RuntimeExtView,
        Result<(), ExtError>,
    ) {
        let at = spec_find_callback(self.callbacks, id);
        if at >= self.callbacks.len() {
            (self, Err(ExtError::PromiseIdNotFound))
        } else if self.callbacks[at].1.callback is Some {
            (self, Err(ExtError::PromiseAlreadyHasCallback))
        } else {
            (
                RuntimeExtView {
                    callbacks: self.callbacks.update(
                        at,
                        (id, CallbackView { callback: Some(info), ..self.callbacks[at].1 }),
                    ),
                    ..self
                },
                Ok(()),
            )
        }
    }

    /// The bridge after its receipts and callbacks were handed out.
    pub open spec fn drained(self) -> RuntimeExtView {
        RuntimeExtView { receipts: Seq::empty(), callbacks: Seq::empty(), ..self }
    }
}

impl RuntimeExt {
    /// Attaches `info` to the receipt `id` that the method created: the
    /// result of that receipt then goes to the slot that `info` names.
    pub fn await_receipt(&mut self, id: &[u8], info: CallbackInfo) -> (r: Result<(), ExtError>)
        ensures
            (final(self)@, r) == old(self)@.await_receipt(id@, info@),
    {
        let at = self.find_receipt(id);
        self.attach(at, info)
    }

    /// Attaches `info` to the callback `id` that the method created: the
    /// result of that callback then goes to the slot that `info` names.
    pub fn await_callback(&mut self, id: &[u8], info: CallbackInfo) -> (r: Result<(), ExtError>)
        ensures
            (final(self)@, r) == old(self)@.await_callback(id@, info@),
    {
        let at = self.find_callback(id);
        if at >= self.callbacks.len() {
            return Err(ExtError::PromiseIdNotFound);
        }
        let ghost before = self@.callbacks;
        assert(before[at as int] == self.callbacks@[at as int]@);
        proof {
            lemma_find_callback(before, id@);
        }
        let mut pending = self.callbacks.remove(at);
        if pending.callback.callback.is_some() {
            self.callbacks.insert(at, pending);
            assert(self@.callbacks =~= before);
            return Err(ExtError::PromiseAlreadyHasCallback);
        }
        pending.callback.callback = Some(info);
        self.callbacks.insert(at, pending);
        assert(self@.callbacks =~= before.update(
            at as int,
            (id@, CallbackView { callback: Some(info@), ..before[at as int].1 }),
        ));
        Ok(())
    }

    /// A bridge for a run on the account `receiver_id`, paid by
    /// `accounting_info`, whose identifiers derive from `transaction_hash`.
    pub fn new(receiver_id: &AccountId, accounting_info: &AccountingInfo, transaction_hash: &[u8]) -> (r:
        Self)
        ensures
            r@ == spec_new_ext(receiver_id@, accounting_info@, transaction_hash@),
    {
        let r = RuntimeExt {
            account_id: receiver_id.clone(),
            accounting_info: accounting_info.clone(),
            nonce: 0,
            transaction_hash: copy_bytes(transaction_hash),
            receipts: Vec::new(),
            callbacks: Vec::new(),
        };
        assert(r@.receipts =~= Seq::empty());
        assert(r@.callbacks =~= Seq::empty());
        r
    }

    /// Writes `value` under `key` in the storage of the account.
    pub fn storage_set(&self, state_update: &mut StateDbUpdate, key: &[u8], value: &[u8])
        requires
            old(state_update).wf(),
        ensures
            only_staged(old(state_update), final(state_update)),
            final(state_update)@ == old(state_update)@.insert(
                spec_storage_key(self@.account_id, key@),
                value@,
            ),
    {
        let storage_key = create_storage_key(&self.account_id, key);
        state_update.set(storage_key.as_slice(), value);
    }

    /// Reads what is under `key` in the storage of the account.
    pub fn storage_get(&self, state_update: &StateDbUpdate, key: &[u8]) -> (r: Option<Vec<u8>>)
        requires
            state_update.wf(),
        ensures
            opt_bytes(r) == stored(state_update@, spec_storage_key(self@.account_id, key@)),
    {
        let storage_key = create_storage_key(&self.account_id, key);
        state_update.get(storage_key.as_slice())
    }

    /// Gives out the next identifier.
    pub fn create_nonce(&mut self) -> (r: Vec<u8>)
        ensures
            r@ == old(self)@.next_id(),
            final(self)@ == old(self)@.stepped(),
    {
        let nonce = create_nonce_with_nonce(self.transaction_hash.as_slice(), self.nonce);
        if self.nonce < u64::MAX {
            self.nonce += 1;
        }
        nonce
    }

    /// Registers a call to `method_name` of `account_id`, to be sent when
    /// the run ends, and names its result.
    pub fn promise_create(
        &mut self,
        account_id: AccountId,
        method_name: Vec<u8>,
        arguments: Vec<u8>,
        mana: Mana,
        amount: Balance,
    ) -> (r: PromiseId)
        ensures
            final(self)@ == old(self)@.promise_create(
                account_id@,
                method_name@,
                arguments@,
                mana,
                amount,
            ),
            r@ == PromiseIdView::Receipt(old(self)@.next_id()),
    {
        let nonce = self.create_nonce();
        let receipt = ReceiptTransaction::new(
            self.account_id.clone(),
            account_id,
            nonce.clone(),
            ReceiptBody::NewCall(
                AsyncCall::new(method_name, arguments, amount, mana, self.accounting_info.clone()),
            ),
        );
        proof {
            lemma_views_push(self.receipts@, receipt);
        }
        self.receipts.push(receipt);
        PromiseId::Receipt(nonce)
    }

    fn find_receipt(&self, id: &[u8]) -> (at: usize)
        ensures
            at == spec_find_receipt(self@.receipts, id@),
            at <= self.receipts@.len(),
    {
        let mut at: usize = 0;
        while at < self.receipts.len()
            invariant
                at <= self.receipts.len(),
                forall|i: int| 0 <= i < at ==> (#[trigger] self@.receipts[i]).nonce != id@,
            decreases self.receipts.len() - at,
        {
            if same_bytes(self.receipts[at].nonce.as_slice(), id) {
                proof {
                    assert(self@.receipts[at as int].nonce == id@);
                    lemma_found_receipt(self@.receipts, id@, at as int);
                }
                return at;
            }
            assert(self@.receipts[at as int].nonce != id@);
            at += 1;
        }
        proof {
            lemma_found_receipt(self@.receipts, id@, at as int);
        }
        at
    }

    fn find_callback(&self, id: &[u8]) -> (at: usize)
        ensures
            at == spec_find_callback(self@.callbacks, id@),
            at <= self.callbacks@.len(),
    {
        let mut at: usize = 0;
        while at < self.callbacks.len()
            invariant
                at <= self.callbacks.len(),
                forall|i: int| 0 <= i < at ==> (#[trigger] self@.callbacks[i]).0 != id@,
            decreases self.callbacks.len() - at,
        {
            if same_bytes(self.callbacks[at].id.as_slice(), id) {
                proof {
                    assert(self@.callbacks[at as int].0 == id@);
                    lemma_found_callback(self@.callbacks, id@, at as int);
                }
                return at;
            }
            assert(self@.callbacks[at as int].0 != id@);
            at += 1;
        }
        proof {
            lemma_found_callback(self@.callbacks, id@, at as int);
        }
        at
    }

    /// Attaches `info` to the receipt at `at`, if it is a call that nobody awaits.
    fn attach(&mut self, at: usize, info: CallbackInfo) -> (r: Result<(), ExtError>)
        requires
            at <= old(self).receipts@.len(),
        ensures
            r == spec_attachable(old(self)@.receipts, at as int),
            final(self)@ == (RuntimeExtView {
                receipts: if r is Ok {
                    old(self)@.receipts.update(
                        at as int,
                        spec_awaited(old(self)@.receipts[at as int], info@),
                    )
                } else {
                    old(self)@.receipts
                },
                ..old(self)@
            }),
    {
        if at >= self.receipts.len() {
            return Err(ExtError::PromiseIdNotFound);
        }
        let ghost before = self@.receipts;
        assert(before[at as int] == self.receipts@[at as int]@);
        let mut receipt = self.receipts.remove(at);
        let r = match &mut receipt.body {
            ReceiptBody::NewCall(call) => {
                if call.callback.is_some() {
                    Err(ExtError::PromiseAlreadyHasCallback)
                } else {
                    call.callback = Some(info);
                    Ok(())
                }
            },
            _ => Err(ExtError::WrongPromise),
        };
        self.receipts.insert(at, receipt);
        proof {
            if r is Ok {
                assert(self@.receipts =~= before.update(
                    at as int,
                    spec_awaited(before[at as int], info@),
                ));
            } else {
                assert(self@.receipts =~= before);
            }
        }
        r
    }

    /// Registers a callback that runs `method_name` on the results of
    /// `promise_id`, and names its result. Each receipt that the promise
    /// stands for is given a slot of the callback.
    #[verifier::loop_isolation(false)]
    pub fn promise_then(
        &mut self,
        promise_id: PromiseId,
        method_name: Vec<u8>,
        arguments: Vec<u8>,
        mana: Mana,
    ) -> (r: Result<PromiseId, ExtError>)
        ensures
            ({
                let (ext, told) = old(self)@.promise_then(
                    promise_id@,
                    method_name@,
                    arguments@,
                    mana,
                );
                &&& final(self)@ == ext
                &&& match r {
                    Ok(p) => told == Ok::<PromiseIdView, ExtError>(p@),
                    Err(e) => told == Err::<PromiseIdView, ExtError>(e),
                }
            }),
    {
        let callback_id = self.create_nonce();
        let receipt_ids: Vec<Vec<u8>> = match promise_id {
            PromiseId::Receipt(r) => {
                let ids = vec![r];
                assert(bytes_list(ids@) =~= seq![r@]);
                ids
            },
            PromiseId::Joiner(rs) => rs,
            PromiseId::Callback(_) => {
                return Err(ExtError::WrongPromise);
            },
        };
        let ghost ids = bytes_list(receipt_ids@);
        let ghost start = old(self)@.receipts;
        let ghost stepped = old(self)@.stepped();
        let mut index: usize = 0;
        while index < receipt_ids.len()
            invariant
                index <= receipt_ids.len(),
                self@ == (RuntimeExtView { receipts: self@.receipts, ..stepped }),
                spec_attach(start, ids, 0, callback_id@, stepped.account_id) == spec_attach(
                    self@.receipts,
                    ids,
                    index as int,
                    callback_id@,
                    stepped.account_id,
                ),
            decreases receipt_ids.len() - index,
        {
            let at = self.find_receipt(receipt_ids[index].as_slice());
            let info = CallbackInfo::new(callback_id.clone(), index as u64, self.account_id.clone());
            match self.attach(at, info) {
                Err(e) => {
                    return Err(e);
                },
                Ok(()) => {},
            }
            index += 1;
        }
        let mut callback = Callback::new(method_name, arguments, mana, self.accounting_info.clone());
        let ghost fresh = callback@;
        assert(callback@.results.len() == callback.results@.len());
        let mut slot: usize = 0;
        while slot < receipt_ids.len()
            invariant
                slot <= receipt_ids.len(),
                callback.results@.len() == slot,
                forall|i: int| 0 <= i < slot ==> callback.results@[i] is None,
                callback@ == (CallbackView { results: callback@.results, ..fresh }),
            decreases receipt_ids.len() - slot,
        {
            callback.results.push(None);
            slot += 1;
        }
        assert(callback@.results =~= Seq::new(ids.len(), |i: int| None));
        let pending = PendingCallback { id: callback_id.clone(), callback };
        proof {
            lemma_views_push(self.callbacks@, pending);
        }
        self.callbacks.push(pending);
        Ok(PromiseId::Callback(callback_id))
    }

    /// Hands out the receipts that the method created, in the order of
    /// their creation, and forgets them.
    pub fn get_receipts(&mut self) -> (r: Vec<ReceiptTransaction>)
        ensures
            views(r@) == old(self)@.receipts,
            final(self)@ == (RuntimeExtView { receipts: Seq::empty(), ..old(self)@ }),
    {
        let mut r: Vec<ReceiptTransaction> = Vec::new();
        r.append(&mut self.receipts);
        assert(views(r@) =~= old(self)@.receipts);
        assert(self@.receipts =~= Seq::empty());
        r
    }

    /// Writes the callbacks that the method created to the state, in the
    /// order of their creation, and forgets them.
    pub fn flush_callbacks(&mut self, state_update: &mut StateDbUpdate)
        requires
            old(state_update).wf(),
        ensures
            only_staged(old(state_update), final(state_update)),
            final(state_update)@ == spec_flush(old(state_update)@, old(self)@.callbacks),
            final(self)@ == (RuntimeExtView { callbacks: Seq::empty(), ..old(self)@ }),
    {
        let ghost all = self@.callbacks;
        let mut i: usize = 0;
        assert(all.take(0) =~= Seq::empty());
        while i < self.callbacks.len()
            invariant
                i <= self.callbacks.len(),
                *self == *old(self),
                all == self@.callbacks,
                only_staged(old(state_update), state_update),
                state_update@ == spec_flush(old(state_update)@, all.take(i as int)),
            decreases self.callbacks.len() - i,
        {
            let pending = &self.callbacks[i];
            proof {
                assert(all.take(i + 1).drop_last() =~= all.take(i as int));
                assert(all.take(i + 1).last() == pending@);
            }
            set_callback(state_update, pending.id.as_slice(), &pending.callback);
            i += 1;
        }
        assert(all.take(self.callbacks.len() as int) =~= all);
        self.callbacks.clear();
        assert(self@.callbacks =~= Seq::empty());
    }
}

} // verus!
