//! What the runtime hands to the contract executor and what it gets back.
//!
//! The runtime does not run contract code. Where an input needs a method
//! run, it describes the run in an `ExecutionRequest`; whoever drives the
//! runtime runs the method, with the bridge of the running session as the
//! method's host interface, and hands back the `ExecutionResult`.
use crate::bytes::{bytes_list, opt_bytes_list};
use crate::types::{views, AccountId, Balance, BlockIndex, Gas, LogEntry, Mana};
use vstd::prelude::*;

verus! {

/// Names something that a method can wait for.
#[derive(Clone, Debug, PartialEq, Eq)]
pub enum PromiseId {
    /// The result of the receipt with this identifier.
    Receipt(Vec<u8>),
    /// The result of the callback with this identifier.
    Callback(Vec<u8>),
    /// The results of several receipts.
    Joiner(Vec<Vec<u8>>),
}

/// What a `PromiseId` holds, as contracts speak of it.
pub ghost enum PromiseIdView {
    Receipt(Seq<u8>),
    Callback(Seq<u8>),
    Joiner(Seq<Seq<u8>>),
}

impl View for PromiseId {
    type V = PromiseIdView;

    open spec fn view(&self) -> PromiseIdView {
        match self {
            PromiseId::Receipt(id) => PromiseIdView::Receipt(id@),
            PromiseId::Callback(id) => PromiseIdView::Callback(id@),
            PromiseId::Joiner(ids) => PromiseIdView::Joiner(bytes_list(ids@)),
        }
    }
}

/// What a method returned.
#[derive(Clone, Debug, PartialEq, Eq)]
pub enum ReturnData {
    /// The method returned bytes.
    Value(Vec<u8>),
    /// The method returned the result of something still to run.
    Promise(PromiseId),
    /// The method returned nothing.
    Nothing,
}

/// What a `ReturnData` holds, as contracts speak of it.
pub ghost enum ReturnDataView {
    Value(Seq<u8>),
    Promise(PromiseIdView),
    Nothing,
}

impl View for ReturnData {
    type V = ReturnDataView;

    open spec fn view(&self) -> ReturnDataView {
        match self {
            ReturnData::Value(v) => ReturnDataView::Value(v@),
            ReturnData::Promise(p) => ReturnDataView::Promise(p@),
            ReturnData::Nothing => ReturnDataView::Nothing,
        }
    }
}

/// What a method sees of the call that runs it.
#[derive(Clone, Debug, PartialEq, Eq)]
pub struct RuntimeContext {
    pub initial_balance: Balance,
    pub received_amount: Balance,
    pub sender_id: AccountId,
    pub account_id: AccountId,
    pub mana: Mana,
    pub block_index: BlockIndex,
    pub random_seed: Vec<u8>,
}

/// What a `RuntimeContext` holds, as contracts speak of it.
pub ghost struct RuntimeContextView {
    pub initial_balance: Balance,
    pub received_amount: Balance,
    pub sender_id: Seq<char>,
    pub account_id: Seq<char>,
    pub mana: Mana,
    pub block_index: BlockIndex,
    pub random_seed: Seq<u8>,
}

impl View for RuntimeContext {
    type V = RuntimeContextView;

    open spec fn view(&self) -> RuntimeContextView {
        RuntimeContextView {
            initial_balance: self.initial_balance,
            received_amount: self.received_amount,
            sender_id: self.sender_id@,
            account_id: self.account_id@,
            mana: self.mana,
            block_index: self.block_index,
            random_seed: self.random_seed@,
        }
    }
}

/// A method to run: the code, the method with its arguments, the results
/// that a callback waited for, and the context of the call.
#[derive(Clone, Debug, PartialEq, Eq)]
pub struct ExecutionRequest {
    pub code: Vec<u8>,
    pub method_name: Vec<u8>,
    pub args: Vec<u8>,
    pub input_data: Vec<Option<Vec<u8>>>,
    pub context: RuntimeContext,
}

/// What a `ExecutionRequest` holds, as contracts speak of it.
pub ghost struct ExecutionRequestView {
    pub code: Seq<u8>,
    pub method_name: Seq<u8>,
    pub args: Seq<u8>,
    pub input_data: Seq<Option<Seq<u8>>>,
    pub context: RuntimeContextView,
}

impl View for ExecutionRequest {
    type V = ExecutionRequestView;

    open spec fn view(&self) -> ExecutionRequestView {
        ExecutionRequestView {
            code: self.code@,
            method_name: self.method_name@,
            args: self.args@,
            input_data: opt_bytes_list(self.input_data@),
            context: self.context@,
        }
    }
}

/// What a run used and gave: `return_data` is an error where the method
/// was started and then failed.
#[derive(Debug, PartialEq, Eq)]
pub struct ExecutionOutcome {
    pub gas_used: Gas,
    pub mana_left: Mana,
    pub logs: Vec<LogEntry>,
    pub balance: Balance,
    pub return_data: Result<ReturnData, String>,
}

/// What a `ExecutionOutcome` holds, as contracts speak of it.
pub ghost struct ExecutionOutcomeView {
    pub gas_used: Gas,
    pub mana_left: Mana,
    pub logs: Seq<Seq<char>>,
    pub balance: Balance,
    pub return_data: Result<ReturnDataView, Seq<char>>,
}

impl View for ExecutionOutcome {
    type V = ExecutionOutcomeView;

    open spec fn view(&self) -> ExecutionOutcomeView {
        ExecutionOutcomeView {
            gas_used: self.gas_used,
            mana_left: self.mana_left,
            logs: views(self.logs@),
            balance: self.balance,
            return_data: match self.return_data {
                Ok(d) => Ok(d@),
                Err(e) => Err(e@),
            },
        }
    }
}

/// The result of a run: an error where the method could not be started.
pub type ExecutionResult = Result<ExecutionOutcome, String>;

/// The view of the result of a run.
pub open spec fn execution_view(r: ExecutionResult) -> Result<ExecutionOutcomeView, Seq<char>> {
    match r {
        Ok(o) => Ok(o@),
        Err(e) => Err(e@),
    }
}

} // verus!
