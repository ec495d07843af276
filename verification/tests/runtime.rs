use node_runtime::error::ErrorKind;
use node_runtime::executor::{
    ExecutionOutcome, ExecutionRequest, ExecutionResult, PromiseId, ReturnData,
};
use node_runtime::ext::{ExtError, RuntimeExt};
use node_runtime::hash::{create_nonce_with_nonce, hash};
use node_runtime::keys::{account_id_to_bytes, callback_id_to_bytes, COL_ACCOUNT, COL_CODE};
use node_runtime::receipt_applier::{apply_receipt, resume_receipt, ReceiptProgress};
use node_runtime::records::{
    decode_blob, get_account, get_callback, set_account, set_callback, Account,
};
use node_runtime::runtime::{ApplyProgress, ApplyResult, ApplySession, ApplyState, Runtime};
use node_runtime::state::{empty_root, StateDb, StateDbUpdate};
use node_runtime::transaction::{
    default_signature, CreateAccountTransaction, DeployContractTransaction,
    FunctionCallTransaction, SendMoneyTransaction, SignedTransaction, StakeTransaction,
    SwapKeyTransaction, TransactionBody,
};
use node_runtime::types::{
    AccountId, AccountingInfo, AsyncCall, Callback, CallbackInfo, CallbackResult, ManaAccounting,
    ReceiptBlock, ReceiptBody, ReceiptTransaction, TransactionStatus,
};

// ---------------------------------------------------------------------------
// The test bed: a genesis state and a stand-in for the contract executor
// ---------------------------------------------------------------------------
fn alice_account() -> AccountId {
    "alice.near".to_string()
}

fn bob_account() -> AccountId {
    "bob.near".to_string()
}

fn eve_account() -> AccountId {
    "eve.near".to_string()
}

fn alice_key() -> Vec<u8> {
    vec![1; 32]
}

fn bob_key() -> Vec<u8> {
    vec![2; 32]
}

/// A public key that no genesis account holds.
fn get_key() -> Vec<u8> {
    vec![7; 32]
}

fn other_key() -> Vec<u8> {
    vec![8; 32]
}

fn genesis_wasm() -> Vec<u8> {
    b"\0asm genesis contract".to_vec()
}

fn default_code_hash() -> Vec<u8> {
    hash(&genesis_wasm())
}

fn get_runtime_and_root_with(extra: Vec<(AccountId, Vec<u8>, u64, u64)>) -> (Runtime, Vec<u8>) {
    let mut runtime = Runtime::new(StateDb::new());
    let mut balances =
        vec![(alice_account(), alice_key(), 100, 10), (bob_account(), bob_key(), 0, 10)];
    balances.extend(extra);
    let authorities = vec![(alice_account(), alice_key(), 50)];
    let root = runtime.apply_genesis_state(&balances, &genesis_wasm(), &authorities).unwrap();
    (runtime, root)
}

fn get_runtime_and_root() -> (Runtime, Vec<u8>) {
    get_runtime_and_root_with(vec![])
}

/// What a viewer shows of an account.
#[derive(Debug, PartialEq, Eq)]
struct AccountViewCallResult {
    account: AccountId,
    nonce: u64,
    amount: u64,
    stake: u64,
    code_hash: Vec<u8>,
}

fn view_account(runtime: &Runtime, root: &[u8], id: &AccountId) -> Result<AccountViewCallResult, String> {
    let state_update = StateDbUpdate::new(&runtime.state_db, root);
    match get_account(&state_update, id) {
        Some(account) => Ok(AccountViewCallResult {
            account: id.clone(),
            nonce: account.nonce,
            amount: account.amount,
            stake: account.staked,
            code_hash: account.code_hash,
        }),
        None => Err(format!("account {} does not exist", id)),
    }
}

fn encode_int(x: i32) -> [u8; 4] {
    x.to_le_bytes()
}

fn decode_ints(bytes: &[u8]) -> Vec<i32> {
    bytes.chunks(4).map(|c| i32::from_le_bytes([c[0], c[1], c[2], c[3]])).collect()
}

/// What the stand-in executor needs of its host.
trait Host {
    fn storage_set(&mut self, key: &[u8], value: &[u8]);
    fn promise_create(&mut self, account_id: AccountId, method: &[u8], args: &[u8]) -> PromiseId;
    fn promise_then(&mut self, promise: PromiseId, method: &[u8], args: &[u8]) -> Result<PromiseId, ExtError>;
}

impl<'a> Host for ApplySession<'a> {
    fn storage_set(&mut self, key: &[u8], value: &[u8]) {
        ApplySession::storage_set(self, key, value)
    }

    fn promise_create(&mut self, account_id: AccountId, method: &[u8], args: &[u8]) -> PromiseId {
        ApplySession::promise_create(self, account_id, method.to_vec(), args.to_vec(), 0, 0)
    }

    fn promise_then(&mut self, promise: PromiseId, method: &[u8], args: &[u8]) -> Result<PromiseId, ExtError> {
        ApplySession::promise_then(self, promise, method.to_vec(), args.to_vec(), 0)
    }
}

struct Bridge<'s, 'a> {
    ext: &'s mut RuntimeExt,
    state_update: &'s mut StateDbUpdate<'a>,
}

impl<'s, 'a> Host for Bridge<'s, 'a> {
    fn storage_set(&mut self, key: &[u8], value: &[u8]) {
        self.ext.storage_set(self.state_update, key, value)
    }

    fn promise_create(&mut self, account_id: AccountId, method: &[u8], args: &[u8]) -> PromiseId {
        self.ext.promise_create(account_id, method.to_vec(), args.to_vec(), 0, 0)
    }

    fn promise_then(&mut self, promise: PromiseId, method: &[u8], args: &[u8]) -> Result<PromiseId, ExtError> {
        self.ext.promise_then(promise, method.to_vec(), args.to_vec(), 0)
    }
}

/// Stands in for the contract executor: it knows the methods of the test
/// contract by name, whatever the code is.
fn execute(request: &ExecutionRequest, host: &mut dyn Host) -> ExecutionResult {
    let balance = request.context.initial_balance + request.context.received_amount;
    let mut outcome = ExecutionOutcome {
        gas_used: 10,
        mana_left: request.context.mana,
        logs: vec![],
        balance,
        return_data: Ok(ReturnData::Nothing),
    };
    match request.method_name.as_slice() {
        b"run_test" => {
            outcome.return_data = Ok(ReturnData::Value(encode_int(10).to_vec()));
        }
        b"log_something" => {
            outcome.logs.push("LOG: hello".to_string());
        }
        b"run_test_with_storage_change" => {
            host.storage_set(b"key", b"value");
            outcome.return_data = Ok(ReturnData::Value(encode_int(20).to_vec()));
        }
        b"sum_with_input" => {
            let mut sum: i32 = decode_ints(&request.args).iter().sum();
            for input in request.input_data.iter().flatten() {
                sum += decode_ints(input).iter().sum::<i32>();
            }
            outcome.return_data = Ok(ReturnData::Value(encode_int(sum).to_vec()));
        }
        b"call_then" => {
            let promise = host.promise_create(alice_account(), b"run_test", &[]);
            let joined = host.promise_then(promise, b"sum_with_input", &request.args).unwrap();
            outcome.return_data = Ok(ReturnData::Promise(joined));
        }
        b"call_other" => {
            let promise = host.promise_create(alice_account(), b"run_test", &[]);
            outcome.return_data = Ok(ReturnData::Promise(promise));
        }
        b"cannot_start" => {
            return Err("PrepareError".to_string());
        }
        _ => {
            outcome.gas_used = 1;
            outcome.return_data = Err("MethodNotFound".to_string());
        }
    }
    Ok(outcome)
}

fn run_to_end(mut progress: ApplyProgress) -> ApplyResult {
    loop {
        match progress {
            ApplyProgress::Finished(result) => return result,
            ApplyProgress::Aborted(e) => panic!("{}", e.message()),
            ApplyProgress::Suspended(mut session) => {
                let request = session.request().clone();
                let outcome = execute(&request, &mut session);
                progress = session.resume(outcome);
            }
        }
    }
}

fn apply(
    runtime: &Runtime,
    apply_state: &ApplyState,
    prev_receipts: &[ReceiptBlock],
    transactions: &[SignedTransaction],
) -> ApplyResult {
    run_to_end(runtime.apply(apply_state, prev_receipts, transactions))
}

fn to_receipt_block(receipts: Vec<ReceiptTransaction>) -> ReceiptBlock {
    ReceiptBlock { receipts }
}

/// Applies, commits, and goes on with the receipts that came out, until
/// none comes out.
fn apply_all_vec(
    runtime: &mut Runtime,
    apply_state: ApplyState,
    prev_receipts: Vec<ReceiptBlock>,
    transactions: Vec<SignedTransaction>,
) -> Vec<ApplyResult> {
    let mut results = vec![];
    let mut apply_state = apply_state;
    let mut prev_receipts = prev_receipts;
    let mut transactions = transactions;
    loop {
        let mut result = apply(runtime, &apply_state, &prev_receipts, &transactions);
        results.push(result.clone());
        runtime.state_db.commit(result.db_changes).unwrap();
        if result.new_receipts.is_empty() {
            return results;
        }
        apply_state = ApplyState {
            root: result.root,
            shard_id: result.shard_id,
            block_index: apply_state.block_index,
            parent_block_hash: apply_state.parent_block_hash,
        };
        prev_receipts = vec![to_receipt_block(result.new_receipts.remove(&0).unwrap())];
        transactions = vec![];
    }
}

fn apply_all(runtime: &mut Runtime, apply_state: ApplyState, transactions: Vec<SignedTransaction>) -> ApplyResult {
    apply_all_vec(runtime, apply_state, vec![], transactions).pop().unwrap()
}

fn state_at(root: &[u8]) -> ApplyState {
    ApplyState { root: root.to_vec(), shard_id: 0, parent_block_hash: vec![0; 32], block_index: 0 }
}

fn get_code(runtime: &Runtime, root: &[u8], id: &AccountId) -> Option<Vec<u8>> {
    let state_update = StateDbUpdate::new(&runtime.state_db, root);
    state_update.get(&account_id_to_bytes(COL_CODE, id)).and_then(|bytes| decode_blob(&bytes))
}

// ---------------------------------------------------------------------------
// Genesis and the state
// ---------------------------------------------------------------------------
#[test]
fn test_genesis_state() {
    let (runtime, root) = get_runtime_and_root();
    let result = view_account(&runtime, &root, &alice_account());
    assert_eq!(
        result.unwrap(),
        AccountViewCallResult {
            account: alice_account(),
            amount: 100,
            nonce: 0,
            stake: 50,
            code_hash: default_code_hash(),
        }
    );
}

#[test]
fn test_get_and_set_accounts() {
    let state_db = StateDb::new();
    let mut state_update = StateDbUpdate::new(&state_db, &empty_root());
    let test_account = Account::new(vec![], 10, hash(&[]));
    let account_id = bob_account();
    set_account(&mut state_update, &account_id, &test_account);
    let get_res = get_account(&state_update, &account_id).unwrap();
    assert_eq!(test_account, get_res);
}

#[test]
fn test_get_account_from_state_db() {
    let mut state_db = StateDb::new();
    let root = empty_root();
    let test_account = Account::new(vec![], 10, hash(&[]));
    let account_id = bob_account();
    let (transaction, new_root) = {
        let mut state_update = StateDbUpdate::new(&state_db, &root);
        set_account(&mut state_update, &account_id, &test_account);
        state_update.finalize()
    };
    state_db.commit(transaction).unwrap();
    let new_state_update = StateDbUpdate::new(&state_db, &new_root);
    let get_res = get_account(&new_state_update, &account_id).unwrap();
    assert_eq!(test_account, get_res);
}

#[test]
fn test_100_accounts() {
    let mut extra = vec![];
    for i in 0..100 {
        extra.push((format!("account{}", i), get_key(), 10000, 0));
    }
    let (runtime, root) = get_runtime_and_root_with(extra);
    for i in 0..100 {
        assert_eq!(view_account(&runtime, &root, &format!("account{}", i)).unwrap().amount, 10000)
    }
}

// ---------------------------------------------------------------------------
// Contracts
// ---------------------------------------------------------------------------
fn function_call(method_name: &[u8], args: Vec<u8>) -> SignedTransaction {
    let tx_body = TransactionBody::FunctionCall(FunctionCallTransaction {
        nonce: 1,
        originator: alice_account(),
        contract_id: bob_account(),
        method_name: method_name.to_vec(),
        args,
        amount: 0,
    });
    SignedTransaction::new(default_signature(), tx_body)
}

#[test]
fn test_smart_contract_simple() {
    let (mut runtime, root) = get_runtime_and_root();
    let transaction = function_call(b"run_test", vec![]);
    let apply_results = apply_all_vec(&mut runtime, state_at(&root), vec![], vec![transaction]);
    // 3 results: signedTx, It's Receipt, Mana receipt
    assert_eq!(apply_results.len(), 3);
    // Signed TX successfully generated
    assert_eq!(apply_results[0].tx_result[0].status, TransactionStatus::Completed);
    assert_eq!(apply_results[0].new_receipts.len(), 1);
    // Receipt successfully executed
    assert_eq!(apply_results[1].tx_result[0].status, TransactionStatus::Completed);
    assert_eq!(apply_results[1].new_receipts.len(), 1);
    // Mana sucessfully executed
    assert_eq!(apply_results[1].tx_result[0].status, TransactionStatus::Completed);
    // Checking final root
    assert_ne!(root, apply_results[2].root);
}

#[test]
fn test_smart_contract_bad_method_name() {
    let (mut runtime, root) = get_runtime_and_root();
    let transaction = function_call(b"_run_test", vec![]);
    let apply_results = apply_all_vec(&mut runtime, state_at(&root), vec![], vec![transaction]);
    // 3 results: signedTx, It's Receipt, Mana receipt
    assert_eq!(apply_results.len(), 3);
    // Signed TX successfully generated
    assert_eq!(apply_results[0].tx_result[0].status, TransactionStatus::Completed);
    assert_eq!(apply_results[0].new_receipts.len(), 1);
    // Receipt failed to execute.
    assert_eq!(apply_results[1].tx_result[0].status, TransactionStatus::Failed);
    assert_eq!(apply_results[1].new_receipts.len(), 1);
    // Mana sucessfully executed
    assert_eq!(apply_results[2].tx_result[0].status, TransactionStatus::Completed);
    // Checking final root
    assert_ne!(root, apply_results[2].root);
}

#[test]
fn test_smart_contract_with_args() {
    let (mut runtime, root) = get_runtime_and_root();
    let transaction =
        function_call(b"run_test", (2..4).flat_map(|x| encode_int(x).to_vec()).collect());
    let apply_results = apply_all_vec(&mut runtime, state_at(&root), vec![], vec![transaction]);
    // 3 results: signedTx, It's Receipt, Mana receipt
    assert_eq!(apply_results.len(), 3);
    // Signed TX successfully generated
    assert_eq!(apply_results[0].tx_result[0].status, TransactionStatus::Completed);
    assert_eq!(apply_results[0].new_receipts.len(), 1);
    // Receipt successfully executed
    assert_eq!(apply_results[1].tx_result[0].status, TransactionStatus::Completed);
    assert_eq!(apply_results[1].new_receipts.len(), 1);
    // Mana sucessfully executed
    assert_eq!(apply_results[1].tx_result[0].status, TransactionStatus::Completed);
    // Checking final root
    assert_ne!(root, apply_results[2].root);
}

#[test]
fn test_upload_contract() {
    let (mut runtime, root) = get_runtime_and_root();
    let pub_key = get_key();
    let wasm_binary = b"\0asm another contract".to_vec();
    let tx_body = TransactionBody::DeployContract(DeployContractTransaction {
        nonce: 1,
        originator: alice_account(),
        contract_id: eve_account(),
        public_key: pub_key,
        wasm_byte_array: wasm_binary.clone(),
    });
    let transaction = SignedTransaction::new(default_signature(), tx_body);
    let apply_result = apply_all(&mut runtime, state_at(&root), vec![transaction]);
    assert_eq!(apply_result.tx_result[0].status, TransactionStatus::Completed);
    assert_eq!(apply_result.new_receipts.len(), 0);
    assert_ne!(root, apply_result.root);
    let code = get_code(&runtime, &apply_result.root, &eve_account()).unwrap();
    assert_eq!(code, wasm_binary);
}

#[test]
fn test_redeploy_contract() {
    let test_binary = b"test_binary";
    let (mut runtime, root) = get_runtime_and_root();
    let account = {
        let state_update = StateDbUpdate::new(&runtime.state_db, &root);
        get_account(&state_update, &bob_account()).unwrap()
    };
    let tx_body = TransactionBody::DeployContract(DeployContractTransaction {
        nonce: 1,
        originator: bob_account(),
        contract_id: bob_account(),
        wasm_byte_array: test_binary.to_vec(),
        public_key: account.public_keys[0].clone(),
    });
    let transaction = SignedTransaction::new(default_signature(), tx_body);
    let apply_result = apply_all(&mut runtime, state_at(&root), vec![transaction]);
    assert_eq!(apply_result.tx_result[0].status, TransactionStatus::Completed);
    assert_eq!(apply_result.new_receipts.len(), 0);
    assert_ne!(root, apply_result.root);
    let code = get_code(&runtime, &apply_result.root, &bob_account()).unwrap();
    assert_eq!(code, test_binary.to_vec())
}

// ---------------------------------------------------------------------------
// Money
// ---------------------------------------------------------------------------
fn send_money(receiver: AccountId, amount: u64) -> SignedTransaction {
    let tx_body = TransactionBody::SendMoney(SendMoneyTransaction {
        nonce: 1,
        originator: alice_account(),
        receiver,
        amount,
    });
    SignedTransaction::new(default_signature(), tx_body)
}

#[test]
fn test_send_money() {
    let (mut runtime, root) = get_runtime_and_root();
    let transaction = send_money(bob_account(), 10);
    let apply_result = apply_all(&mut runtime, state_at(&root), vec![transaction]);
    assert_eq!(apply_result.tx_result[0].status, TransactionStatus::Completed);
    assert_eq!(apply_result.new_receipts.len(), 0);
    assert_ne!(root, apply_result.root);
    let result1 = view_account(&runtime, &apply_result.root, &alice_account());
    assert_eq!(
        result1.unwrap(),
        AccountViewCallResult {
            nonce: 1,
            account: alice_account(),
            amount: 90,
            stake: 50,
            code_hash: default_code_hash(),
        }
    );
    let result2 = view_account(&runtime, &apply_result.root, &bob_account());
    assert_eq!(
        result2.unwrap(),
        AccountViewCallResult {
            nonce: 0,
            account: bob_account(),
            amount: 10,
            stake: 0,
            code_hash: default_code_hash(),
        }
    );
}

#[test]
fn test_send_money_over_balance() {
    let (mut runtime, root) = get_runtime_and_root();
    let transaction = send_money(bob_account(), 1000);
    let apply_result = apply(&runtime, &state_at(&root), &[], &[transaction]);
    assert_eq!(apply_result.tx_result[0].status, TransactionStatus::Failed);
    assert_eq!(apply_result.new_receipts.len(), 0);
    assert_eq!(root, apply_result.root);
    runtime.state_db.commit(apply_result.db_changes).unwrap();
    let result1 = view_account(&runtime, &apply_result.root, &alice_account());
    assert_eq!(
        result1.unwrap(),
        AccountViewCallResult {
            nonce: 0,
            account: alice_account(),
            amount: 100,
            stake: 50,
            code_hash: default_code_hash(),
        }
    );
    let result2 = view_account(&runtime, &apply_result.root, &bob_account());
    assert_eq!(
        result2.unwrap(),
        AccountViewCallResult {
            nonce: 0,
            account: bob_account(),
            amount: 0,
            stake: 0,
            code_hash: default_code_hash(),
        }
    );
}

#[test]
fn test_refund_on_send_money_to_non_existent_account() {
    let (mut runtime, root) = get_runtime_and_root();
    // Account should not exist
    let transaction = send_money(eve_account(), 10);
    let apply_result = apply_all(&mut runtime, state_at(&root), vec![transaction]);
    assert_ne!(root, apply_result.root);
    let result1 = view_account(&runtime, &apply_result.root, &alice_account());
    assert_eq!(
        result1.unwrap(),
        AccountViewCallResult {
            nonce: 1,
            account: alice_account(),
            amount: 100,
            stake: 50,
            code_hash: default_code_hash(),
        }
    );
    let result2 = view_account(&runtime, &apply_result.root, &eve_account());
    assert!(result2.is_err());
}

// ---------------------------------------------------------------------------
// Accounts
// ---------------------------------------------------------------------------
fn create_account(new_account_id: AccountId, public_key: Vec<u8>) -> SignedTransaction {
    let tx_body = TransactionBody::CreateAccount(CreateAccountTransaction {
        nonce: 1,
        originator: alice_account(),
        new_account_id,
        amount: 10,
        public_key,
    });
    SignedTransaction::new(default_signature(), tx_body)
}

#[test]
fn test_create_account() {
    let (mut runtime, root) = get_runtime_and_root();
    let transaction = create_account(eve_account(), get_key());
    let apply_result = apply_all(&mut runtime, state_at(&root), vec![transaction]);
    assert_ne!(root, apply_result.root);
    let result1 = view_account(&runtime, &apply_result.root, &alice_account());
    assert_eq!(
        result1.unwrap(),
        AccountViewCallResult {
            nonce: 1,
            account: alice_account(),
            amount: 90,
            stake: 50,
            code_hash: default_code_hash(),
        }
    );
    let result2 = view_account(&runtime, &apply_result.root, &eve_account());
    assert_eq!(
        result2.unwrap(),
        AccountViewCallResult {
            nonce: 0,
            account: eve_account(),
            amount: 10,
            stake: 0,
            code_hash: hash(b""),
        }
    );
}

#[test]
fn test_create_account_failure_invalid_name() {
    let (mut runtime, root) = get_runtime_and_root();
    for invalid_account_name in vec![
        "eve",                               // too short
        "Alice.near",                        // capital letter
        "alice(near)",                       // brackets are invalid
        "long_of_the_name_for_real_is_hard", // too long
        "qq@qq*qq",                          // * is invalid
    ] {
        let transaction = create_account(invalid_account_name.to_string(), get_key());
        let apply_result = apply_all(&mut runtime, state_at(&root), vec![transaction]);
        // Transaction failed, roots are the same and nonce on the account is 0.
        assert_eq!(root, apply_result.root);
        let result1 = view_account(&runtime, &apply_result.root, &alice_account());
        assert_eq!(
            result1.unwrap(),
            AccountViewCallResult {
                nonce: 0,
                account: alice_account(),
                amount: 100,
                stake: 50,
                code_hash: default_code_hash(),
            }
        );
    }
}

#[test]
fn test_create_account_failure_already_exists() {
    let (mut runtime, root) = get_runtime_and_root();
    let transaction = create_account(bob_account(), get_key());
    let apply_result = apply_all(&mut runtime, state_at(&root), vec![transaction]);
    assert_ne!(root, apply_result.root);
    let result1 = view_account(&runtime, &apply_result.root, &alice_account());
    assert_eq!(
        result1.unwrap(),
        AccountViewCallResult {
            nonce: 1,
            account: alice_account(),
            amount: 100,
            stake: 50,
            code_hash: default_code_hash(),
        }
    );
    let result2 = view_account(&runtime, &apply_result.root, &bob_account());
    assert_eq!(
        result2.unwrap(),
        AccountViewCallResult {
            nonce: 0,
            account: bob_account(),
            amount: 0,
            stake: 0,
            code_hash: default_code_hash(),
        }
    );
}

#[test]
fn test_swap_key() {
    let (mut runtime, root) = get_runtime_and_root();
    let pub_key1 = get_key();
    let pub_key2 = other_key();
    let transaction = create_account(eve_account(), pub_key1.clone());
    let apply_result = apply_all(&mut runtime, state_at(&root), vec![transaction]);
    assert_eq!(apply_result.tx_result[0].status, TransactionStatus::Completed);
    assert_eq!(apply_result.new_receipts.len(), 0);
    assert_ne!(root, apply_result.root);
    let tx_body = TransactionBody::SwapKey(SwapKeyTransaction {
        nonce: 2,
        originator: eve_account(),
        cur_key: pub_key1,
        new_key: pub_key2.clone(),
    });
    let transaction1 = SignedTransaction::new(vec![9; 64], tx_body);
    let apply_result = apply(&runtime, &state_at(&apply_result.root), &[], &[transaction1]);
    runtime.state_db.commit(apply_result.db_changes).unwrap();
    let new_state_update = StateDbUpdate::new(&runtime.state_db, &apply_result.root);
    let account = get_account(&new_state_update, &eve_account()).unwrap();
    assert_eq!(account.public_keys, vec![pub_key2]);
}

#[test]
fn test_nonce_update_when_deploying_contract() {
    let (mut runtime, root) = get_runtime_and_root();
    let tx_body = TransactionBody::DeployContract(DeployContractTransaction {
        nonce: 1,
        originator: alice_account(),
        contract_id: eve_account(),
        public_key: get_key(),
        wasm_byte_array: b"\0asm another contract".to_vec(),
    });
    let transaction = SignedTransaction::new(default_signature(), tx_body);
    let apply_result = apply(&runtime, &state_at(&root), &[], &[transaction]);
    runtime.state_db.commit(apply_result.db_changes).unwrap();
    let state_update = StateDbUpdate::new(&runtime.state_db, &apply_result.root);
    let account = get_account(&state_update, &alice_account()).unwrap();
    assert_eq!(account.nonce, 1);
}

// ---------------------------------------------------------------------------
// Calls and callbacks
// ---------------------------------------------------------------------------
fn call_receipt(method_name: &[u8]) -> ReceiptTransaction {
    ReceiptTransaction::new(
        alice_account(),
        bob_account(),
        hash(&[1, 2, 3]),
        ReceiptBody::NewCall(AsyncCall::new(
            method_name.to_vec(),
            vec![],
            0,
            0,
            AccountingInfo { originator: alice_account(), contract_id: None },
        )),
    )
}

#[test]
fn test_async_call_with_no_callback() {
    let (mut runtime, root) = get_runtime_and_root();
    let receipt = call_receipt(b"run_test");
    let apply_results =
        apply_all_vec(&mut runtime, state_at(&root), vec![to_receipt_block(vec![receipt])], vec![]);
    // 2 results: Receipt, Mana receipt
    assert_eq!(apply_results.len(), 2);
    // Signed TX successfully generated
    assert_eq!(apply_results[0].tx_result[0].status, TransactionStatus::Completed);
    assert_eq!(apply_results[0].new_receipts.len(), 1);
    assert_eq!(root, apply_results[0].root);
    // Receipt successfully executed
    assert_eq!(apply_results[1].tx_result[0].status, TransactionStatus::Completed);
    // Change in mana and gas
    assert_ne!(root, apply_results[1].root);
}

#[test]
fn test_async_call_with_logs() {
    let (mut runtime, root) = get_runtime_and_root();
    let receipt = call_receipt(b"log_something");
    let apply_results =
        apply_all_vec(&mut runtime, state_at(&root), vec![to_receipt_block(vec![receipt])], vec![]);
    // 2 results: Receipt, Mana receipt
    assert_eq!(apply_results.len(), 2);
    // Signed TX successfully generated
    assert_eq!(apply_results[0].tx_result[0].status, TransactionStatus::Completed);
    assert_eq!(apply_results[0].new_receipts.len(), 1);
    // Receipt successfully executed and contains logs
    assert_eq!(apply_results[1].tx_result[0].status, TransactionStatus::Completed);
    assert_eq!(apply_results[0].tx_result[0].logs[0], "LOG: hello".to_string());
    // Change in mana and gas
    assert_ne!(apply_results[0].root, apply_results[1].root);
}

#[test]
fn test_async_call_with_callback() {
    let (runtime, root) = get_runtime_and_root();
    let args: Vec<u8> = (7..9).flat_map(|x| encode_int(x).to_vec()).collect();
    let accounting_info =
        AccountingInfo { originator: alice_account(), contract_id: Some(bob_account()) };
    let mut callback = Callback::new(b"sum_with_input".to_vec(), args, 0, accounting_info.clone());
    callback.results.resize(1, None);
    let callback_id = [0; 32].to_vec();
    let mut async_call =
        AsyncCall::new(b"run_test".to_vec(), vec![], 0, 0, accounting_info.clone());
    let callback_info = CallbackInfo::new(callback_id.clone(), 0, alice_account());
    async_call.callback = Some(callback_info.clone());
    let receipt = ReceiptTransaction::new(
        alice_account(),
        bob_account(),
        hash(&[1, 2, 3]),
        ReceiptBody::NewCall(async_call),
    );
    let block_index = 1;
    let mut state_update = StateDbUpdate::new(&runtime.state_db, &root);
    let mut new_receipts = vec![];
    let mut logs = vec![];
    let progress =
        apply_receipt(&mut state_update, &receipt, &mut new_receipts, block_index, &mut logs);
    let mut pending = match progress {
        ReceiptProgress::Suspended(pending) => pending,
        _ => panic!("the call has to run"),
    };
    let request = pending.request.clone();
    let outcome =
        execute(&request, &mut Bridge { ext: &mut pending.ext, state_update: &mut state_update });
    resume_receipt(&mut state_update, &receipt, pending, outcome, &mut new_receipts, &mut logs)
        .unwrap();
    assert_eq!(new_receipts.len(), 2);

    assert_eq!(new_receipts[0].originator, bob_account());
    assert_eq!(new_receipts[0].receiver, alice_account());
    let callback_res = CallbackResult::new(callback_info.clone(), Some(encode_int(10).to_vec()));
    assert_eq!(new_receipts[0].body, ReceiptBody::Callback(callback_res));

    assert_eq!(new_receipts[1].originator, bob_account());
    assert_eq!(new_receipts[1].receiver, alice_account());
    if let ReceiptBody::ManaAccounting(ref mana_accounting) = new_receipts[1].body {
        assert_eq!(mana_accounting.mana_refund, 0);
        assert!(mana_accounting.gas_used > 0);
        assert_eq!(mana_accounting.accounting_info, accounting_info);
    } else {
        assert!(false);
    }
}

fn store_callback(runtime: &mut Runtime, root: &[u8], method_name: &[u8], callback_id: &[u8]) -> Vec<u8> {
    let mut callback = Callback::new(
        method_name.to_vec(),
        vec![],
        0,
        AccountingInfo { originator: alice_account(), contract_id: Some(bob_account()) },
    );
    callback.results.resize(1, None);
    let (transaction, new_root) = {
        let mut state_update = StateDbUpdate::new(&runtime.state_db, root);
        set_callback(&mut state_update, callback_id, &callback);
        state_update.finalize()
    };
    runtime.state_db.commit(transaction).unwrap();
    new_root
}

fn callback_receipt(callback_id: &[u8]) -> ReceiptTransaction {
    ReceiptTransaction::new(
        alice_account(),
        bob_account(),
        hash(&[1, 2, 3]),
        ReceiptBody::Callback(CallbackResult::new(
            CallbackInfo::new(callback_id.to_vec(), 0, alice_account()),
            None,
        )),
    )
}

#[test]
fn test_callback() {
    let (mut runtime, root) = get_runtime_and_root();
    let callback_id = [0; 32].to_vec();
    let new_root = store_callback(&mut runtime, &root, b"run_test_with_storage_change", &callback_id);
    let receipt = callback_receipt(&callback_id);
    let apply_result =
        apply(&runtime, &state_at(&new_root), &[to_receipt_block(vec![receipt])], &[]);
    assert_ne!(new_root, apply_result.root);
    runtime.state_db.commit(apply_result.db_changes).unwrap();
    let state_update = StateDbUpdate::new(&runtime.state_db, &apply_result.root);
    let callback = get_callback(&state_update, &callback_id);
    assert!(callback.is_none());
}

#[test]
// if the callback failed, it should still be removed
fn test_callback_failure() {
    let (mut runtime, root) = get_runtime_and_root();
    let callback_id = [0; 32].to_vec();
    let new_root = store_callback(&mut runtime, &root, b"a_function_that_does_not_exist", &callback_id);
    let receipt = callback_receipt(&callback_id);
    let apply_result =
        apply(&runtime, &state_at(&new_root), &[to_receipt_block(vec![receipt])], &[]);
    // the callback should be removed
    assert_ne!(new_root, apply_result.root);
    runtime.state_db.commit(apply_result.db_changes).unwrap();
    let state_update = StateDbUpdate::new(&runtime.state_db, &apply_result.root);
    let callback = get_callback(&state_update, &callback_id);
    assert!(callback.is_none());
}

// ---------------------------------------------------------------------------
// More of the same bed
// ---------------------------------------------------------------------------
#[test]
fn send_money_emits_one_deposit_with_the_first_derived_nonce() {
    let (runtime, root) = get_runtime_and_root();
    let transaction = send_money(bob_account(), 10);
    let tx_hash = transaction.get_hash();
    let result = apply(&runtime, &state_at(&root), &[], &[transaction]);
    assert_eq!(result.tx_result.len(), 1);
    assert_eq!(result.tx_result[0].receipts, vec![create_nonce_with_nonce(&tx_hash, 0)]);
    let sent = &result.new_receipts[&0];
    assert_eq!(sent.len(), 1);
    assert_eq!(sent[0].originator, alice_account());
    assert_eq!(sent[0].receiver, bob_account());
    assert_eq!(sent[0].nonce, create_nonce_with_nonce(&tx_hash, 0));
    let mut expected = AsyncCall::new(
        vec![],
        vec![],
        10,
        0,
        AccountingInfo { originator: alice_account(), contract_id: None },
    );
    expected.callback = None;
    assert_eq!(sent[0].body, ReceiptBody::NewCall(expected));
}

#[test]
fn failing_transaction_logs_its_message() {
    let (runtime, root) = get_runtime_and_root();
    let transaction = send_money(bob_account(), 1000);
    let result = apply(&runtime, &state_at(&root), &[], &[transaction]);
    assert_eq!(
        result.tx_result[0].logs,
        vec![
            "Runtime error: Account alice.near tries to send 1000, but has staked 50 and only has 100"
                .to_string()
        ]
    );
    assert!(result.tx_result[0].receipts.is_empty());
}

#[test]
fn transaction_with_stale_nonce_fails() {
    let (mut runtime, root) = get_runtime_and_root();
    let first = apply_all(&mut runtime, state_at(&root), vec![send_money(bob_account(), 10)]);
    let again = apply(&runtime, &state_at(&first.root), &[], &[send_money(bob_account(), 10)]);
    assert_eq!(again.tx_result[0].status, TransactionStatus::Failed);
    assert_eq!(
        again.tx_result[0].logs,
        vec!["Runtime error: Transaction nonce 1 must be larger than sender nonce 1".to_string()]
    );
    assert_eq!(again.root, first.root);
}

#[test]
fn transaction_of_unknown_sender_fails() {
    let (runtime, root) = get_runtime_and_root();
    let tx_body = TransactionBody::SendMoney(SendMoneyTransaction {
        nonce: 1,
        originator: eve_account(),
        receiver: bob_account(),
        amount: 1,
    });
    let transaction = SignedTransaction::new(default_signature(), tx_body);
    let result = apply(&runtime, &state_at(&root), &[], &[transaction]);
    assert_eq!(result.tx_result[0].status, TransactionStatus::Failed);
    assert_eq!(
        result.tx_result[0].logs,
        vec!["Runtime error: sender eve.near does not exist".to_string()]
    );
}

#[test]
fn transaction_with_invalid_originator_fails() {
    let (runtime, root) = get_runtime_and_root();
    let tx_body = TransactionBody::SendMoney(SendMoneyTransaction {
        nonce: 1,
        originator: "Al".to_string(),
        receiver: bob_account(),
        amount: 1,
    });
    let transaction = SignedTransaction::new(default_signature(), tx_body);
    let result = apply(&runtime, &state_at(&root), &[], &[transaction]);
    assert_eq!(
        result.tx_result[0].logs,
        vec!["Runtime error: Invalid originator account_id".to_string()]
    );
}

#[test]
fn transaction_to_invalid_contract_fails() {
    let (runtime, root) = get_runtime_and_root();
    let result = apply(&runtime, &state_at(&root), &[], &[send_money("BOB".to_string(), 1)]);
    assert_eq!(result.tx_result[0].logs, vec!["Runtime error: Invalid contract_id".to_string()]);
    assert_eq!(result.root, root);
}

#[test]
fn sending_nothing_fails() {
    let (runtime, root) = get_runtime_and_root();
    let result = apply(&runtime, &state_at(&root), &[], &[send_money(bob_account(), 0)]);
    assert_eq!(
        result.tx_result[0].logs,
        vec!["Runtime error: Sending 0 amount of money".to_string()]
    );
}

#[test]
fn transaction_without_mana_fails() {
    let (runtime, root) =
        get_runtime_and_root_with(vec![("poor.near".to_string(), get_key(), 100, 0)]);
    let tx_body = TransactionBody::SendMoney(SendMoneyTransaction {
        nonce: 1,
        originator: "poor.near".to_string(),
        receiver: bob_account(),
        amount: 1,
    });
    let transaction = SignedTransaction::new(default_signature(), tx_body);
    let result = apply(&runtime, &state_at(&root), &[], &[transaction]);
    assert_eq!(
        result.tx_result[0].logs,
        vec!["Runtime error: sender poor.near does not have enough mana 1".to_string()]
    );
    assert_eq!(result.root, root);
}

#[test]
fn mana_runs_out_and_comes_back_with_the_blocks() {
    let (mut runtime, root) =
        get_runtime_and_root_with(vec![("once.near".to_string(), get_key(), 100, 1)]);
    let tx = |nonce: u64| {
        SignedTransaction::new(
            default_signature(),
            TransactionBody::SendMoney(SendMoneyTransaction {
                nonce,
                originator: "once.near".to_string(),
                receiver: bob_account(),
                amount: 1,
            }),
        )
    };
    let first = apply_all(&mut runtime, state_at(&root), vec![tx(1)]);
    let second = apply(&runtime, &state_at(&first.root), &[], &[tx(2)]);
    assert_eq!(second.tx_result[0].status, TransactionStatus::Failed);
    let mut later = state_at(&first.root);
    later.block_index = 1;
    let third = apply(&runtime, &later, &[], &[tx(2)]);
    assert_eq!(third.tx_result[0].status, TransactionStatus::Completed);
}

#[test]
fn staking_moves_balance_to_stake_and_proposes() {
    let (mut runtime, root) = get_runtime_and_root();
    let tx_body = TransactionBody::Stake(StakeTransaction {
        nonce: 1,
        originator: alice_account(),
        amount: 30,
    });
    let transaction = SignedTransaction::new(default_signature(), tx_body);
    let result = apply(&runtime, &state_at(&root), &[], &[transaction]);
    assert_eq!(result.tx_result[0].status, TransactionStatus::Completed);
    assert_eq!(result.authority_proposals.len(), 1);
    assert_eq!(result.authority_proposals[0].account_id, alice_account());
    assert_eq!(result.authority_proposals[0].public_key, alice_key());
    assert_eq!(result.authority_proposals[0].amount, 30);
    runtime.state_db.commit(result.db_changes).unwrap();
    let account = view_account(&runtime, &result.root, &alice_account()).unwrap();
    assert_eq!(account.amount, 70);
    assert_eq!(account.stake, 80);
}

#[test]
fn staking_over_balance_fails() {
    let (runtime, root) = get_runtime_and_root();
    let tx_body = TransactionBody::Stake(StakeTransaction {
        nonce: 1,
        originator: alice_account(),
        amount: 101,
    });
    let transaction = SignedTransaction::new(default_signature(), tx_body);
    let result = apply(&runtime, &state_at(&root), &[], &[transaction]);
    assert_eq!(
        result.tx_result[0].logs,
        vec![
            "Runtime error: Account alice.near tries to stake 101, but has staked 50 and only has 100"
                .to_string()
        ]
    );
    assert!(result.authority_proposals.is_empty());
}

fn byte_list(bytes: &[u8]) -> String {
    format!("{:?}", bytes)
}

#[test]
fn swapping_a_key_that_is_not_held_fails() {
    let (runtime, root) = get_runtime_and_root();
    let tx_body = TransactionBody::SwapKey(SwapKeyTransaction {
        nonce: 1,
        originator: alice_account(),
        cur_key: get_key(),
        new_key: other_key(),
    });
    let transaction = SignedTransaction::new(default_signature(), tx_body);
    let result = apply(&runtime, &state_at(&root), &[], &[transaction]);
    assert_eq!(
        result.tx_result[0].logs,
        vec![format!(
            "Runtime error: Account alice.near does not have public key {}",
            byte_list(&get_key())
        )]
    );
    assert!(result.tx_result[0].logs[0].ends_with("public key [7, 7, 7, 7, 7, 7, 7, 7, 7, 7, 7, 7, 7, 7, 7, 7, 7, 7, 7, 7, 7, 7, 7, 7, 7, 7, 7, 7, 7, 7, 7, 7]"));
}

#[test]
fn swapping_with_bytes_that_are_no_key_fails() {
    let (runtime, root) = get_runtime_and_root();
    let tx_body = TransactionBody::SwapKey(SwapKeyTransaction {
        nonce: 1,
        originator: alice_account(),
        cur_key: alice_key(),
        new_key: vec![1, 2, 3],
    });
    let transaction = SignedTransaction::new(default_signature(), tx_body);
    let result = apply(&runtime, &state_at(&root), &[], &[transaction]);
    assert_eq!(
        result.tx_result[0].logs,
        vec!["Runtime error: cannot decode public key".to_string()]
    );
}

#[test]
fn receipt_for_another_shard_fails_and_changes_nothing() {
    let (runtime, root) = get_runtime_and_root();
    let mut apply_state = state_at(&root);
    apply_state.shard_id = 1;
    let receipt = call_receipt(b"run_test");
    let result = apply(&runtime, &apply_state, &[to_receipt_block(vec![receipt])], &[]);
    assert_eq!(result.tx_result[0].status, TransactionStatus::Failed);
    assert_eq!(result.tx_result[0].logs, vec!["receipt sent to the wrong shard".to_string()]);
    assert!(result.tx_result[0].receipts.is_empty());
    assert_eq!(result.root, root);
    assert_eq!(result.shard_id, 1);
    assert_eq!(result.db_changes.len(), 0);
}

#[test]
fn receipts_are_applied_before_transactions_and_in_order() {
    let (runtime, root) = get_runtime_and_root();
    let deposit = |nonce: u8, amount: u64| {
        ReceiptTransaction::new(
            bob_account(),
            alice_account(),
            vec![nonce; 32],
            ReceiptBody::Refund(amount),
        )
    };
    // alice has 100: only with both refunds in can she send 130.
    let blocks =
        vec![to_receipt_block(vec![deposit(1, 20)]), to_receipt_block(vec![deposit(2, 15)])];
    let result = apply(&runtime, &state_at(&root), &blocks, &[send_money(bob_account(), 130)]);
    assert_eq!(result.tx_result.len(), 3);
    assert_eq!(result.tx_result[0].status, TransactionStatus::Completed);
    assert_eq!(result.tx_result[1].status, TransactionStatus::Completed);
    assert_eq!(result.tx_result[2].status, TransactionStatus::Completed);
}

#[test]
fn failing_call_refunds_its_amount_and_answers_the_callback() {
    let (runtime, root) = get_runtime_and_root();
    let info = CallbackInfo::new(vec![5; 32], 0, alice_account());
    let mut call = AsyncCall::new(
        b"run_test".to_vec(),
        vec![],
        7,
        0,
        AccountingInfo { originator: alice_account(), contract_id: None },
    );
    call.callback = Some(info.clone());
    let nonce = hash(&[4]);
    // eve does not exist.
    let receipt =
        ReceiptTransaction::new(alice_account(), eve_account(), nonce.clone(), ReceiptBody::NewCall(call));
    let result = apply(&runtime, &state_at(&root), &[to_receipt_block(vec![receipt])], &[]);
    assert_eq!(result.tx_result[0].status, TransactionStatus::Failed);
    assert_eq!(
        result.tx_result[0].logs,
        vec!["Runtime error: receiver eve.near does not exist".to_string()]
    );
    let sent = &result.new_receipts[&0];
    assert_eq!(sent.len(), 1);
    assert_eq!(sent[0].originator, "system".to_string());
    assert_eq!(sent[0].receiver, alice_account());
    assert_eq!(sent[0].nonce, create_nonce_with_nonce(&nonce, 0));
    assert_eq!(sent[0].body, ReceiptBody::Refund(7));
    assert_eq!(result.root, root);
}

#[test]
fn call_to_account_without_code_refunds_and_answers() {
    let (mut runtime, root) = get_runtime_and_root();
    let created = apply_all(&mut runtime, state_at(&root), vec![create_account(eve_account(), get_key())]);
    let info = CallbackInfo::new(vec![5; 32], 3, bob_account());
    let mut call = AsyncCall::new(
        b"run_test".to_vec(),
        vec![],
        7,
        0,
        AccountingInfo { originator: alice_account(), contract_id: None },
    );
    call.callback = Some(info.clone());
    let nonce = hash(&[4]);
    let receipt =
        ReceiptTransaction::new(alice_account(), eve_account(), nonce.clone(), ReceiptBody::NewCall(call));
    let result = apply(&runtime, &state_at(&created.root), &[to_receipt_block(vec![receipt])], &[]);
    assert_eq!(
        result.tx_result[0].logs,
        vec!["Runtime error: cannot find contract code for account eve.near".to_string()]
    );
    let sent = &result.new_receipts[&0];
    assert_eq!(sent.len(), 2);
    assert_eq!(sent[0].originator, eve_account());
    assert_eq!(sent[0].body, ReceiptBody::Refund(7));
    assert_eq!(sent[1].originator, eve_account());
    assert_eq!(sent[1].receiver, bob_account());
    assert_eq!(sent[1].nonce, create_nonce_with_nonce(&nonce, 1));
    assert_eq!(sent[1].body, ReceiptBody::Callback(CallbackResult::new(info, None)));
    assert_eq!(
        result.tx_result[0].receipts,
        vec![create_nonce_with_nonce(&nonce, 0), create_nonce_with_nonce(&nonce, 1)]
    );
}

#[test]
fn run_that_cannot_start_hands_the_mana_back() {
    let (runtime, root) = get_runtime_and_root();
    let accounting_info = AccountingInfo { originator: alice_account(), contract_id: None };
    let call = AsyncCall::new(b"cannot_start".to_vec(), vec![], 0, 4, accounting_info.clone());
    let receipt =
        ReceiptTransaction::new(alice_account(), bob_account(), hash(&[4]), ReceiptBody::NewCall(call));
    let result = apply(&runtime, &state_at(&root), &[to_receipt_block(vec![receipt])], &[]);
    assert_eq!(
        result.tx_result[0].logs,
        vec!["Runtime error: wasm async call preparation failed with error: PrepareError".to_string()]
    );
    let sent = &result.new_receipts[&0];
    assert_eq!(sent.len(), 1);
    assert_eq!(
        sent[0].body,
        ReceiptBody::ManaAccounting(ManaAccounting { accounting_info, mana_refund: 4, gas_used: 0 })
    );
}

#[test]
fn callback_that_still_waits_is_stored_with_the_result() {
    let (mut runtime, root) = get_runtime_and_root();
    let callback_id = vec![3; 32];
    let mut callback = Callback::new(
        b"sum_with_input".to_vec(),
        vec![],
        0,
        AccountingInfo { originator: alice_account(), contract_id: None },
    );
    callback.results.resize(2, None);
    let (changes, stored_root) = {
        let mut state_update = StateDbUpdate::new(&runtime.state_db, &root);
        set_callback(&mut state_update, &callback_id, &callback);
        state_update.finalize()
    };
    runtime.state_db.commit(changes).unwrap();
    let result_for = |index: u64, value: i32| {
        ReceiptTransaction::new(
            alice_account(),
            bob_account(),
            vec![index as u8; 32],
            ReceiptBody::Callback(CallbackResult::new(
                CallbackInfo::new(callback_id.clone(), index, bob_account()),
                Some(encode_int(value).to_vec()),
            )),
        )
    };
    let first = apply(&runtime, &state_at(&stored_root), &[to_receipt_block(vec![result_for(1, 5)])], &[]);
    assert_eq!(first.tx_result[0].status, TransactionStatus::Completed);
    assert!(first.new_receipts.is_empty());
    runtime.state_db.commit(first.db_changes).unwrap();
    {
        let state_update = StateDbUpdate::new(&runtime.state_db, &first.root);
        let waiting = get_callback(&state_update, &callback_id).unwrap();
        assert_eq!(waiting.result_counter, 1);
        assert_eq!(waiting.results, vec![None, Some(encode_int(5).to_vec())]);
    }
    // The second result completes the callback: it runs and leaves the state.
    let second = apply(&runtime, &state_at(&first.root), &[to_receipt_block(vec![result_for(0, 6)])], &[]);
    assert_eq!(second.tx_result[0].status, TransactionStatus::Completed);
    runtime.state_db.commit(second.db_changes).unwrap();
    let state_update = StateDbUpdate::new(&runtime.state_db, &second.root);
    assert!(get_callback(&state_update, &callback_id).is_none());
}

#[test]
fn result_for_missing_slot_fails() {
    let (mut runtime, root) = get_runtime_and_root();
    let callback_id = vec![3; 32];
    let stored_root = store_callback(&mut runtime, &root, b"run_test", &callback_id);
    let receipt = ReceiptTransaction::new(
        alice_account(),
        bob_account(),
        vec![1; 32],
        ReceiptBody::Callback(CallbackResult::new(
            CallbackInfo::new(callback_id.clone(), 4, bob_account()),
            None,
        )),
    );
    let result = apply(&runtime, &state_at(&stored_root), &[to_receipt_block(vec![receipt])], &[]);
    assert_eq!(
        result.tx_result[0].logs,
        vec!["Runtime error: callback has no slot 4".to_string()]
    );
    assert_eq!(result.root, stored_root);
}

#[test]
fn result_for_unknown_callback_fails() {
    let (runtime, root) = get_runtime_and_root();
    let result =
        apply(&runtime, &state_at(&root), &[to_receipt_block(vec![callback_receipt(&[9, 0, 255])])], &[]);
    assert_eq!(
        result.tx_result[0].logs,
        vec!["Runtime error: callback id: [9, 0, 255] not found".to_string()]
    );
    assert_eq!(result.tx_result[0].status, TransactionStatus::Failed);
    assert_eq!(result.root, root);
    // Nothing was run, so nothing is accounted: the slot alone is answered.
    let sent = &result.new_receipts[&0];
    assert_eq!(sent.len(), 1);
    assert_eq!(
        sent[0].body,
        ReceiptBody::Callback(CallbackResult::new(
            CallbackInfo::new(vec![9, 0, 255], 0, alice_account()),
            None
        ))
    );
}

#[test]
fn method_that_waits_for_a_call_registers_receipt_and_callback() {
    let (mut runtime, root) = get_runtime_and_root();
    let nonce = hash(&[1, 2, 3]);
    let receipt = call_receipt(b"call_then");
    let result = apply(&runtime, &state_at(&root), &[to_receipt_block(vec![receipt])], &[]);
    assert_eq!(result.tx_result[0].status, TransactionStatus::Completed);
    let sent = &result.new_receipts[&0];
    // The call that the method created, and the accounting of the run.
    assert_eq!(sent.len(), 2);
    let callback_id = create_nonce_with_nonce(&nonce, 1);
    assert_eq!(sent[0].nonce, create_nonce_with_nonce(&nonce, 0));
    assert_eq!(sent[0].originator, bob_account());
    assert_eq!(sent[0].receiver, alice_account());
    match &sent[0].body {
        ReceiptBody::NewCall(call) => {
            assert_eq!(call.method_name, b"run_test".to_vec());
            assert_eq!(call.callback, Some(CallbackInfo::new(callback_id.clone(), 0, bob_account())));
        }
        _ => panic!("a call was created"),
    }
    runtime.state_db.commit(result.db_changes.clone()).unwrap();
    let state_update = StateDbUpdate::new(&runtime.state_db, &result.root);
    let callback = get_callback(&state_update, &callback_id).unwrap();
    assert_eq!(callback.method_name, b"sum_with_input".to_vec());
    assert_eq!(callback.results, vec![None]);
    assert_eq!(callback.result_counter, 0);
}

#[test]
fn returned_promise_takes_over_the_awaiting_slot() {
    let (runtime, root) = get_runtime_and_root();
    let info = CallbackInfo::new(vec![5; 32], 0, alice_account());
    let mut call = AsyncCall::new(
        b"call_other".to_vec(),
        vec![],
        0,
        0,
        AccountingInfo { originator: alice_account(), contract_id: None },
    );
    call.callback = Some(info.clone());
    let receipt =
        ReceiptTransaction::new(alice_account(), bob_account(), hash(&[4]), ReceiptBody::NewCall(call));
    let result = apply(&runtime, &state_at(&root), &[to_receipt_block(vec![receipt])], &[]);
    let sent = &result.new_receipts[&0];
    match &sent[0].body {
        ReceiptBody::NewCall(call) => assert_eq!(call.callback, Some(info)),
        _ => panic!("a call was created"),
    }
}

#[test]
fn storage_of_a_run_is_kept_under_the_account() {
    let (mut runtime, root) = get_runtime_and_root();
    let receipt = call_receipt(b"run_test_with_storage_change");
    let result = apply(&runtime, &state_at(&root), &[to_receipt_block(vec![receipt])], &[]);
    runtime.state_db.commit(result.db_changes).unwrap();
    let mut key = account_id_to_bytes(COL_ACCOUNT, &bob_account());
    key.push(b',');
    key.extend_from_slice(b"key");
    assert_eq!(runtime.state_db.get(&key), Some(b"value".to_vec()));
}

#[test]
fn two_runs_on_the_same_inputs_agree() {
    let (runtime1, root1) = get_runtime_and_root();
    let (runtime2, root2) = get_runtime_and_root();
    assert_eq!(root1, root2);
    let inputs = || {
        (
            vec![to_receipt_block(vec![call_receipt(b"call_then")])],
            vec![send_money(bob_account(), 10), send_money(bob_account(), 10)],
        )
    };
    let (receipts1, transactions1) = inputs();
    let (receipts2, transactions2) = inputs();
    let result1 = apply(&runtime1, &state_at(&root1), &receipts1, &transactions1);
    let result2 = apply(&runtime2, &state_at(&root2), &receipts2, &transactions2);
    assert_eq!(result1, result2);
}

#[test]
fn genesis_with_bad_key_fails_and_changes_nothing() {
    let mut runtime = Runtime::new(StateDb::new());
    let balances = vec![(alice_account(), vec![1u8; 31], 100, 10)];
    let result = runtime.apply_genesis_state(&balances, &genesis_wasm(), &[]);
    assert_eq!(result.unwrap_err().message(), "cannot decode public key");
    assert_eq!(runtime.state_db.len(), 0);
    assert_eq!(runtime.state_db.root(), empty_root());
}

#[test]
fn genesis_with_unknown_authority_fails() {
    let mut runtime = Runtime::new(StateDb::new());
    let balances = vec![(alice_account(), alice_key(), 100, 10)];
    let authorities = vec![(bob_account(), bob_key(), 50)];
    let result = runtime.apply_genesis_state(&balances, &genesis_wasm(), &authorities);
    assert_eq!(result.unwrap_err().message(), "authority bob.near does not have an account");
}

#[test]
fn callback_key_is_column_and_id() {
    assert_eq!(callback_id_to_bytes(&[7, 8, 9]), vec![1, 7, 8, 9]);
    assert_eq!(callback_id_to_bytes(&[]), vec![1]);
}

// ---------------------------------------------------------------------------
// Failures of receipts, one by one
// ---------------------------------------------------------------------------
fn general(originator: AccountId) -> AccountingInfo {
    AccountingInfo { originator, contract_id: None }
}

fn call_to(receiver: AccountId, method_name: &[u8], args: Vec<u8>, amount: u64) -> ReceiptTransaction {
    ReceiptTransaction::new(
        alice_account(),
        receiver,
        hash(&[4]),
        ReceiptBody::NewCall(AsyncCall::new(
            method_name.to_vec(),
            args,
            amount,
            0,
            general(alice_account()),
        )),
    )
}

fn failure_of(runtime: &Runtime, root: &[u8], receipt: ReceiptTransaction) -> (String, ApplyResult) {
    let result = apply(runtime, &state_at(root), &[to_receipt_block(vec![receipt])], &[]);
    assert_eq!(result.tx_result[0].status, TransactionStatus::Failed);
    assert_eq!(result.root, root.to_vec());
    (result.tx_result[0].logs.last().unwrap().clone(), result)
}

#[test]
fn deployment_needs_a_key_of_the_account() {
    let (runtime, root) = get_runtime_and_root();
    let args = node_runtime::records::encode_deploy_args(&get_key(), b"code");
    let (log, result) = failure_of(&runtime, &root, call_to(bob_account(), b"_sys:deploy", args, 0));
    assert_eq!(
        log,
        format!("Runtime error: Account bob.near does not contain key {}", byte_list(&get_key()))
    );
    assert!(result.new_receipts.is_empty());
}

#[test]
fn deployment_needs_readable_arguments() {
    let (runtime, root) = get_runtime_and_root();
    let (log, result) =
        failure_of(&runtime, &root, call_to(bob_account(), b"_sys:deploy", vec![1, 2, 3], 5));
    assert_eq!(log, "Runtime error: cannot decode args");
    // The amount goes back.
    assert_eq!(result.new_receipts[&0][0].body, ReceiptBody::Refund(5));
    assert_eq!(result.new_receipts[&0][0].originator, bob_account());
    let args = node_runtime::records::encode_deploy_args(&[1, 2], b"code");
    let (log, _) = failure_of(&runtime, &root, call_to(bob_account(), b"_sys:deploy", args, 0));
    assert_eq!(log, "Runtime error: cannot decode public key");
}

#[test]
fn creation_needs_a_valid_id_and_a_key() {
    let (runtime, root) = get_runtime_and_root();
    let (log, result) = failure_of(
        &runtime,
        &root,
        call_to("Eve".to_string(), b"_sys:create_account", get_key(), 9),
    );
    assert_eq!(log, "Runtime error: Account Eve does not match requirements");
    assert_eq!(result.new_receipts[&0][0].originator, "system".to_string());
    assert_eq!(result.new_receipts[&0][0].receiver, alice_account());
    assert_eq!(result.new_receipts[&0][0].body, ReceiptBody::Refund(9));
    let (log, _) = failure_of(
        &runtime,
        &root,
        call_to(eve_account(), b"_sys:create_account", vec![1; 5], 0),
    );
    assert_eq!(log, "Runtime error: cannot decode public key");
}

#[test]
fn created_account_starts_with_the_default_bucket() {
    let (mut runtime, root) = get_runtime_and_root();
    let result = apply_all(
        &mut runtime,
        state_at(&root),
        vec![create_account(eve_account(), get_key())],
    );
    let state_update = StateDbUpdate::new(&runtime.state_db, &result.root);
    let bucket =
        node_runtime::records::get_tx_stake(&state_update, &general(eve_account())).unwrap();
    assert_eq!(bucket.active_stake, 100);
    assert_eq!(bucket.mana_used, 0);
    assert_eq!(bucket.last_update_block_index, 0);
    let eve = get_account(&state_update, &eve_account()).unwrap();
    assert_eq!(eve.public_keys, vec![get_key()]);
}

#[test]
fn mana_accounting_needs_its_bucket() {
    let (runtime, root) = get_runtime_and_root();
    let accounting = ManaAccounting {
        accounting_info: AccountingInfo {
            originator: alice_account(),
            contract_id: Some(bob_account()),
        },
        mana_refund: 1,
        gas_used: 1,
    };
    let receipt = ReceiptTransaction::new(
        bob_account(),
        alice_account(),
        hash(&[4]),
        ReceiptBody::ManaAccounting(accounting),
    );
    // A transfer before it and one after it: the step ends at the receipt.
    let blocks = vec![to_receipt_block(vec![
        ReceiptTransaction::new(bob_account(), alice_account(), vec![1; 32], ReceiptBody::Refund(1)),
        receipt,
        ReceiptTransaction::new(bob_account(), alice_account(), vec![2; 32], ReceiptBody::Refund(1)),
    ])];
    match runtime.apply(&state_at(&root), &blocks, &[send_money(bob_account(), 1)]) {
        ApplyProgress::Aborted(e) => {
            assert_eq!(e.kind, ErrorKind::TxStakeNotFound);
            assert_eq!(e.message(), "TX stake doesn't exist when mana accounting arrived");
        }
        _ => panic!("accounting without its bucket ends the step"),
    }
    assert_eq!(runtime.state_db.root(), root);
}

#[test]
fn mana_accounting_without_its_bucket_is_no_failed_receipt() {
    let (runtime, root) = get_runtime_and_root();
    let accounting = ManaAccounting {
        accounting_info: general(eve_account()),
        mana_refund: 0,
        gas_used: 1,
    };
    let receipt = ReceiptTransaction::new(
        bob_account(),
        alice_account(),
        hash(&[4]),
        ReceiptBody::ManaAccounting(accounting),
    );
    let mut state_update = StateDbUpdate::new(&runtime.state_db, &root);
    let mut sent = vec![];
    let mut logs = vec![];
    match apply_receipt(&mut state_update, &receipt, &mut sent, 0, &mut logs) {
        ReceiptProgress::Fatal(e) => assert_eq!(e.kind, ErrorKind::TxStakeNotFound),
        _ => panic!("accounting without its bucket is fatal"),
    }
    assert!(sent.is_empty());
    assert!(logs.is_empty());
    assert_eq!(state_update.finalize().1, root);
}

#[test]
fn mana_accounting_refunds_and_charges() {
    let (mut runtime, root) = get_runtime_and_root();
    // One unit of mana is charged for the transaction.
    let first = apply(&runtime, &state_at(&root), &[], &[send_money(bob_account(), 1)]);
    runtime.state_db.commit(first.db_changes).unwrap();
    let accounting = ManaAccounting {
        accounting_info: general(alice_account()),
        mana_refund: 1,
        gas_used: 7,
    };
    let receipt = ReceiptTransaction::new(
        bob_account(),
        alice_account(),
        hash(&[4]),
        ReceiptBody::ManaAccounting(accounting),
    );
    let second = apply(&runtime, &state_at(&first.root), &[to_receipt_block(vec![receipt])], &[]);
    assert_eq!(second.tx_result[0].status, TransactionStatus::Completed);
    runtime.state_db.commit(second.db_changes).unwrap();
    let state_update = StateDbUpdate::new(&runtime.state_db, &second.root);
    let bucket =
        node_runtime::records::get_tx_stake(&state_update, &general(alice_account())).unwrap();
    assert_eq!(bucket.active_stake, 10);
    assert_eq!(bucket.mana_used, 0);
    assert_eq!(bucket.gas_used, 7);
}

#[test]
fn callback_needs_code_on_its_account() {
    let (mut runtime, root) = get_runtime_and_root();
    let created =
        apply_all(&mut runtime, state_at(&root), vec![create_account(eve_account(), get_key())]);
    let receipt = ReceiptTransaction::new(
        alice_account(),
        eve_account(),
        hash(&[4]),
        ReceiptBody::Callback(CallbackResult::new(
            CallbackInfo::new(vec![1; 32], 0, eve_account()),
            None,
        )),
    );
    let (log, _) = failure_of(&runtime, &created.root, receipt);
    assert_eq!(log, "Runtime error: account eve.near does not have contract code");
}

#[test]
fn credit_that_the_balance_cannot_hold_fails_and_goes_back() {
    let (runtime, root) =
        get_runtime_and_root_with(vec![("rich.near".to_string(), get_key(), u64::MAX, 0)]);
    let (log, result) = failure_of(&runtime, &root, call_to("rich.near".to_string(), b"", vec![], 1));
    assert_eq!(log, "Runtime error: Account rich.near cannot hold the amount");
    assert_eq!(result.new_receipts[&0][0].body, ReceiptBody::Refund(1));
    assert_eq!(result.new_receipts[&0][0].receiver, alice_account());
}

#[test]
fn deposit_of_nothing_changes_nothing() {
    let (runtime, root) = get_runtime_and_root();
    let receipt = call_to(bob_account(), b"", vec![], 0);
    let result = apply(&runtime, &state_at(&root), &[to_receipt_block(vec![receipt])], &[]);
    assert_eq!(result.tx_result[0].status, TransactionStatus::Completed);
    assert_eq!(result.root, root);
    assert!(result.new_receipts.is_empty());
}

#[test]
fn creating_over_balance_fails() {
    let (runtime, root) = get_runtime_and_root();
    let tx_body = TransactionBody::CreateAccount(CreateAccountTransaction {
        nonce: 1,
        originator: alice_account(),
        new_account_id: eve_account(),
        amount: 101,
        public_key: get_key(),
    });
    let transaction = SignedTransaction::new(default_signature(), tx_body);
    let result = apply(&runtime, &state_at(&root), &[], &[transaction]);
    assert_eq!(
        result.tx_result[0].logs,
        vec!["Runtime error: Account alice.near tries to create new account with 101, but only has 100"
            .to_string()]
    );
}

#[test]
fn calling_over_balance_fails() {
    let (runtime, root) = get_runtime_and_root();
    let tx_body = TransactionBody::FunctionCall(FunctionCallTransaction {
        nonce: 1,
        originator: alice_account(),
        contract_id: bob_account(),
        method_name: b"run_test".to_vec(),
        args: vec![],
        amount: 101,
    });
    let transaction = SignedTransaction::new(default_signature(), tx_body);
    let result = apply(&runtime, &state_at(&root), &[], &[transaction]);
    assert_eq!(
        result.tx_result[0].logs,
        vec![
            "Runtime error: Account alice.near tries to call some contract with the amount 101, but has staked 50 and only has 100"
                .to_string()
        ]
    );
}

#[test]
fn staking_without_a_key_fails() {
    let mut runtime = Runtime::new(StateDb::new());
    let (changes, root) = {
        let mut state_update = StateDbUpdate::new(&runtime.state_db, &empty_root());
        set_account(&mut state_update, &alice_account(), &Account::new(vec![], 100, hash(&[])));
        node_runtime::records::set_tx_stake(
            &mut state_update,
            &general(alice_account()),
            &node_runtime::tx_stakes::TxTotalStake {
                active_stake: 5,
                mana_used: 0,
                gas_used: 0,
                last_update_block_index: 0,
            },
        );
        state_update.finalize()
    };
    runtime.state_db.commit(changes).unwrap();
    let tx_body = TransactionBody::Stake(StakeTransaction {
        nonce: 1,
        originator: alice_account(),
        amount: 1,
    });
    let transaction = SignedTransaction::new(default_signature(), tx_body);
    let result = apply(&runtime, &state_at(&root), &[], &[transaction]);
    assert_eq!(
        result.tx_result[0].logs,
        vec!["Runtime error: Account alice.near has no public key to stake with".to_string()]
    );
}

#[test]
fn failed_run_reports_the_method() {
    let (runtime, root) = get_runtime_and_root();
    let result = apply(
        &runtime,
        &state_at(&root),
        &[to_receipt_block(vec![call_receipt(b"_run_test")])],
        &[],
    );
    assert_eq!(
        result.tx_result[0].logs,
        vec!["Runtime error: wasm async call execution failed with error: MethodNotFound".to_string()]
    );
    assert_eq!(result.root, root);
}

#[test]
fn failed_callback_reports_the_method_and_leaves() {
    let (mut runtime, root) = get_runtime_and_root();
    let callback_id = vec![0; 32];
    let stored = store_callback(&mut runtime, &root, b"a_function_that_does_not_exist", &callback_id);
    let result = apply(
        &runtime,
        &state_at(&stored),
        &[to_receipt_block(vec![callback_receipt(&callback_id)])],
        &[],
    );
    assert_eq!(result.tx_result[0].status, TransactionStatus::Failed);
    assert_eq!(
        result.tx_result[0].logs,
        vec!["Runtime error: wasm callback execution failed with error: MethodNotFound".to_string()]
    );
    // Nothing is left of the callback: the state is the genesis state again.
    assert_eq!(result.root, root);
}

fn suspended_call(
    state_update: &mut StateDbUpdate,
    callback: Option<CallbackInfo>,
) -> (ReceiptTransaction, node_runtime::receipt_applier::PendingExecution) {
    let mut call =
        AsyncCall::new(b"anything".to_vec(), vec![], 0, 0, general(alice_account()));
    call.callback = callback;
    let receipt =
        ReceiptTransaction::new(alice_account(), bob_account(), hash(&[4]), ReceiptBody::NewCall(call));
    let mut sent = vec![];
    let mut logs = vec![];
    match apply_receipt(state_update, &receipt, &mut sent, 0, &mut logs) {
        ReceiptProgress::Suspended(pending) => {
            assert!(sent.is_empty());
            assert!(logs.is_empty());
            (receipt, pending)
        }
        _ => panic!("the call has to run"),
    }
}

fn outcome_with(data: ReturnData) -> ExecutionResult {
    Ok(ExecutionOutcome { gas_used: 0, mana_left: 0, logs: vec![], balance: 3, return_data: Ok(data) })
}

#[test]
fn returned_promises_must_be_of_this_run_and_free() {
    let (runtime, root) = get_runtime_and_root();
    let info = CallbackInfo::new(vec![5; 32], 0, alice_account());
    let resume = |prepare: &dyn Fn(&mut RuntimeExt) -> PromiseId| {
        let mut state_update = StateDbUpdate::new(&runtime.state_db, &root);
        let (receipt, mut pending) = suspended_call(&mut state_update, Some(info.clone()));
        let promise = prepare(&mut pending.ext);
        let mut sent = vec![];
        let mut logs = vec![];
        let result = resume_receipt(
            &mut state_update,
            &receipt,
            pending,
            outcome_with(ReturnData::Promise(promise)),
            &mut sent,
            &mut logs,
        );
        (result.map_err(|e| e.kind), sent)
    };
    let (result, sent) = resume(&|_| PromiseId::Receipt(vec![1]));
    assert_eq!(result, Err(ErrorKind::PromiseNotFound));
    // The slot that awaited the call gets no result.
    assert_eq!(sent.len(), 1);
    assert_eq!(sent[0].body, ReceiptBody::Callback(CallbackResult::new(info.clone(), None)));
    let (result, _) = resume(&|_| PromiseId::Callback(vec![1]));
    assert_eq!(result, Err(ErrorKind::PromiseNotFound));
    let (result, _) = resume(&|_| PromiseId::Joiner(vec![]));
    assert_eq!(result, Err(ErrorKind::NonCallbackPromise));
    let (result, _) = resume(&|ext| {
        let promise = ext.promise_create(alice_account(), b"m".to_vec(), vec![], 0, 0);
        ext.promise_then(promise.clone(), b"n".to_vec(), vec![], 0).unwrap();
        promise
    });
    assert_eq!(result, Err(ErrorKind::ReceiptHasCallback));
    let (result, _) = resume(&|ext| {
        let promise = ext.promise_create(alice_account(), b"m".to_vec(), vec![], 0, 0);
        let callback = ext.promise_then(promise, b"n".to_vec(), vec![], 0).unwrap();
        let id = match &callback {
            PromiseId::Callback(id) => id.clone(),
            _ => panic!("a callback was registered"),
        };
        ext.await_callback(&id, CallbackInfo::new(vec![6; 32], 0, alice_account())).unwrap();
        callback
    });
    assert_eq!(result, Err(ErrorKind::CallbackHasCallback));
    let (result, sent) = resume(&|ext| {
        let promise = ext.promise_create(alice_account(), b"m".to_vec(), vec![], 0, 0);
        ext.promise_then(promise, b"n".to_vec(), vec![], 0).unwrap()
    });
    assert_eq!(result, Ok(()));
    assert_eq!(sent.len(), 1);
}

#[test]
fn bridge_refuses_what_cannot_be_awaited() {
    let mut ext = RuntimeExt::new(&bob_account(), &general(alice_account()), &[7; 32]);
    let first = ext.promise_create(alice_account(), b"m".to_vec(), vec![1], 2, 3);
    assert_eq!(first, PromiseId::Receipt(create_nonce_with_nonce(&[7; 32], 0)));
    assert_eq!(ext.receipts[0].originator, bob_account());
    assert_eq!(ext.receipts[0].receiver, alice_account());
    assert_eq!(
        ext.receipts[0].body,
        ReceiptBody::NewCall(AsyncCall::new(b"m".to_vec(), vec![1], 3, 2, general(alice_account())))
    );
    assert_eq!(
        ext.promise_then(PromiseId::Callback(vec![1]), vec![], vec![], 0),
        Err(ExtError::WrongPromise)
    );
    assert_eq!(
        ext.promise_then(PromiseId::Receipt(vec![1]), vec![], vec![], 0),
        Err(ExtError::PromiseIdNotFound)
    );
    let second = ext.promise_create(alice_account(), b"m".to_vec(), vec![], 0, 0);
    // Identifiers 1 and 2 went to the two refused callbacks.
    assert_eq!(second, PromiseId::Receipt(create_nonce_with_nonce(&[7; 32], 3)));
    let ids = match (&first, &second) {
        (PromiseId::Receipt(a), PromiseId::Receipt(b)) => vec![a.clone(), b.clone()],
        _ => panic!("two receipts were created"),
    };
    let joined = ext.promise_then(PromiseId::Joiner(ids), b"n".to_vec(), vec![], 5).unwrap();
    let callback_id = create_nonce_with_nonce(&[7; 32], 4);
    assert_eq!(joined, PromiseId::Callback(callback_id.clone()));
    assert_eq!(ext.callbacks.len(), 1);
    assert_eq!(ext.callbacks[0].id, callback_id);
    assert_eq!(ext.callbacks[0].callback.results, vec![None, None]);
    assert_eq!(ext.callbacks[0].callback.mana, 5);
    for (index, receipt) in ext.receipts.iter().enumerate() {
        match &receipt.body {
            ReceiptBody::NewCall(call) => assert_eq!(
                call.callback,
                Some(CallbackInfo::new(callback_id.clone(), index as u64, bob_account()))
            ),
            _ => panic!("a call was created"),
        }
    }
    assert_eq!(
        ext.promise_then(first, vec![], vec![], 0),
        Err(ExtError::PromiseAlreadyHasCallback)
    );
    assert_eq!(ext.get_receipts().len(), 2);
    assert!(ext.receipts.is_empty());
}

#[test]
fn run_sets_the_balance_of_its_account() {
    let (runtime, root) = get_runtime_and_root();
    let mut state_update = StateDbUpdate::new(&runtime.state_db, &root);
    let (receipt, pending) = suspended_call(&mut state_update, None);
    assert_eq!(pending.request.code, genesis_wasm());
    assert_eq!(pending.request.context.sender_id, alice_account());
    assert_eq!(pending.request.context.account_id, bob_account());
    assert_eq!(pending.request.context.random_seed, hash(&[4]));
    let mut sent = vec![];
    let mut logs = vec![];
    resume_receipt(
        &mut state_update,
        &receipt,
        pending,
        outcome_with(ReturnData::Nothing),
        &mut sent,
        &mut logs,
    )
    .unwrap();
    assert!(sent.is_empty());
    assert_eq!(get_account(&state_update, &bob_account()).unwrap().amount, 3);
}

// ---------------------------------------------------------------------------
// Value
// ---------------------------------------------------------------------------
fn value_of(runtime: &Runtime, root: &[u8], ids: &[AccountId]) -> u64 {
    ids.iter()
        .map(|id| match view_account(runtime, root, id) {
            Ok(account) => account.amount + account.stake,
            Err(_) => 0,
        })
        .sum()
}

fn carried_by(result: &ApplyResult) -> u64 {
    result
        .new_receipts
        .values()
        .flatten()
        .map(|receipt| match &receipt.body {
            ReceiptBody::NewCall(call) => call.amount,
            ReceiptBody::Refund(amount) => *amount,
            _ => 0,
        })
        .sum()
}

#[test]
fn value_is_conserved_step_by_step() {
    let (mut runtime, root) = get_runtime_and_root();
    let ids = vec![alice_account(), bob_account(), eve_account()];
    let total = value_of(&runtime, &root, &ids);
    assert_eq!(total, 150);
    let transactions = vec![
        send_money(bob_account(), 10),
        SignedTransaction::new(
            default_signature(),
            TransactionBody::CreateAccount(CreateAccountTransaction {
                nonce: 2,
                originator: alice_account(),
                new_account_id: eve_account(),
                amount: 20,
                public_key: get_key(),
            }),
        ),
        SignedTransaction::new(
            default_signature(),
            TransactionBody::SendMoney(SendMoneyTransaction {
                nonce: 3,
                originator: alice_account(),
                receiver: "nobody.near".to_string(),
                amount: 5,
            }),
        ),
    ];
    let results = apply_all_vec(&mut runtime, state_at(&root), vec![], transactions);
    assert_eq!(results.len(), 3);
    // After the transactions: 35 is on its way.
    assert_eq!(carried_by(&results[0]), 35);
    // After the receipts: 5 comes back from the account that does not exist.
    assert_eq!(carried_by(&results[1]), 5);
    assert_eq!(carried_by(&results[2]), 0);
    let end = &results[2].root;
    assert_eq!(value_of(&runtime, end, &ids), total);
    assert_eq!(view_account(&runtime, end, &alice_account()).unwrap().amount, 70);
    assert_eq!(view_account(&runtime, end, &bob_account()).unwrap().amount, 10);
    assert_eq!(view_account(&runtime, end, &eve_account()).unwrap().amount, 20);
}

#[test]
fn account_holds_the_hash_of_its_code() {
    let (mut runtime, root) = get_runtime_and_root();
    let account = {
        let state_update = StateDbUpdate::new(&runtime.state_db, &root);
        get_account(&state_update, &bob_account()).unwrap()
    };
    assert_eq!(account.code_hash, hash(&get_code(&runtime, &root, &bob_account()).unwrap()));
    let tx_body = TransactionBody::DeployContract(DeployContractTransaction {
        nonce: 1,
        originator: bob_account(),
        contract_id: bob_account(),
        wasm_byte_array: b"new code".to_vec(),
        public_key: bob_key(),
    });
    let transaction = SignedTransaction::new(default_signature(), tx_body);
    let result = apply_all(&mut runtime, state_at(&root), vec![transaction]);
    let bob = view_account(&runtime, &result.root, &bob_account()).unwrap();
    assert_eq!(bob.code_hash, hash(b"new code"));
    assert_eq!(get_code(&runtime, &result.root, &bob_account()), Some(b"new code".to_vec()));
    // An account that was created has the hash of no code, and no code.
    let created =
        apply_all(&mut runtime, state_at(&result.root), vec![create_account(eve_account(), get_key())]);
    assert_eq!(view_account(&runtime, &created.root, &eve_account()).unwrap().code_hash, hash(b""));
    assert_eq!(get_code(&runtime, &created.root, &eve_account()), None);
}

#[test]
fn committed_result_leads_to_its_root() {
    let (mut runtime, root) = get_runtime_and_root();
    let result = apply(&runtime, &state_at(&root), &[], &[send_money(bob_account(), 10)]);
    assert_ne!(runtime.state_db.root(), result.root);
    runtime.state_db.commit(result.db_changes).unwrap();
    assert_eq!(runtime.state_db.root(), result.root);
}

#[test]
fn genesis_needs_an_empty_database() {
    let (mut runtime, root) = get_runtime_and_root();
    let balances = vec![(eve_account(), get_key(), 5, 5)];
    let result = runtime.apply_genesis_state(&balances, &genesis_wasm(), &[]);
    assert_eq!(result.unwrap_err().kind, ErrorKind::DatabaseNotEmpty);
    assert_eq!(runtime.state_db.root(), root);
    assert!(view_account(&runtime, &root, &eve_account()).is_err());
}

// ---------------------------------------------------------------------------
// A whole step
// ---------------------------------------------------------------------------
fn send(nonce: u64, receiver: AccountId, amount: u64) -> SignedTransaction {
    SignedTransaction::new(
        default_signature(),
        TransactionBody::SendMoney(SendMoneyTransaction {
            nonce,
            originator: alice_account(),
            receiver,
            amount,
        }),
    )
}

#[test]
fn step_without_a_failed_transaction_comes_to_the_same_root() {
    let (runtime, root) = get_runtime_and_root();
    let with = vec![send(1, bob_account(), 10), send(2, bob_account(), 1000), send(3, bob_account(), 5)];
    let without = vec![send(1, bob_account(), 10), send(3, bob_account(), 5)];
    let a = apply(&runtime, &state_at(&root), &[], &with);
    let b = apply(&runtime, &state_at(&root), &[], &without);
    assert_eq!(a.tx_result[1].status, TransactionStatus::Failed);
    assert_eq!(a.root, b.root);
    assert_ne!(a.root, root);
    assert_eq!(a.db_changes, b.db_changes);
    assert_eq!(a.new_receipts, b.new_receipts);
    assert_eq!(a.authority_proposals, b.authority_proposals);
    let mut results = a.tx_result.clone();
    results.remove(1);
    assert_eq!(results, b.tx_result);
}

#[test]
fn step_without_a_failed_receipt_comes_to_the_same_root() {
    let (runtime, root) = get_runtime_and_root();
    let refund = |nonce: u8, amount: u64| {
        ReceiptTransaction::new(
            bob_account(),
            alice_account(),
            vec![nonce; 32],
            ReceiptBody::Refund(amount),
        )
    };
    // The second receipt calls an account that does not exist.
    let failing = call_to(eve_account(), b"run_test", vec![], 3);
    let with = vec![to_receipt_block(vec![refund(1, 5), failing, refund(2, 6)])];
    let without = vec![to_receipt_block(vec![refund(1, 5), refund(2, 6)])];
    let transactions = vec![send(1, bob_account(), 110)];
    let a = apply(&runtime, &state_at(&root), &with, &transactions);
    let b = apply(&runtime, &state_at(&root), &without, &transactions);
    assert_eq!(a.tx_result[1].status, TransactionStatus::Failed);
    assert_eq!(a.tx_result[3].status, TransactionStatus::Completed);
    assert_eq!(a.root, b.root);
    assert_eq!(a.db_changes, b.db_changes);
    let mut results = a.tx_result.clone();
    let failed = results.remove(1);
    assert_eq!(results, b.tx_result);
    // The two differ in the compensating receipt, which the failed result lists.
    let sent_a = &a.new_receipts[&0];
    let sent_b = &b.new_receipts[&0];
    assert_eq!(sent_a.len(), sent_b.len() + 1);
    assert_eq!(failed.receipts, vec![sent_a[0].nonce.clone()]);
    assert_eq!(sent_a[0].body, ReceiptBody::Refund(3));
    assert_eq!(sent_a[1..], sent_b[..]);
}

#[test]
fn value_is_conserved_over_a_step() {
    let (runtime, root) = get_runtime_and_root();
    let ids = vec![alice_account(), bob_account(), eve_account(), "carol.near".to_string()];
    let call = |receiver: AccountId, method: &[u8], args: Vec<u8>, amount: u64, nonce: u8| {
        ReceiptTransaction::new(
            alice_account(),
            receiver,
            vec![nonce; 32],
            ReceiptBody::NewCall(AsyncCall::new(
                method.to_vec(),
                args,
                amount,
                0,
                general(alice_account()),
            )),
        )
    };
    let receipts = vec![to_receipt_block(vec![
        // A deposit, the creation of an account, a creation that fails,
        // a call to an account that does not exist, and a refund.
        call(bob_account(), b"", vec![], 7, 1),
        call(eve_account(), b"_sys:create_account", get_key(), 11, 2),
        call("carol.near".to_string(), b"_sys:create_account", vec![1, 2], 13, 3),
        call("nobody.near".to_string(), b"run_test", vec![], 17, 4),
        ReceiptTransaction::new(bob_account(), alice_account(), vec![5; 32], ReceiptBody::Refund(19)),
    ])];
    let carried_in = 7 + 11 + 13 + 17 + 19;
    let transactions = vec![
        send(1, bob_account(), 23),
        send(2, bob_account(), 1000),
        create_account_with_nonce(3, "carol.near".to_string(), 29),
    ];
    let before = value_of(&runtime, &root, &ids);
    let mut after_runtime = Runtime::new(runtime.state_db.clone());
    let result = apply(&after_runtime, &state_at(&root), &receipts, &transactions);
    assert_eq!(result.tx_result.len(), 8);
    after_runtime.state_db.commit(result.db_changes.clone()).unwrap();
    let after = value_of(&after_runtime, &result.root, &ids);
    assert_eq!(after + carried_by(&result), before + carried_in);
    // 13 and 17 go back, 23 and 29 are on their way.
    assert_eq!(carried_by(&result), 13 + 17 + 23 + 29);
}

fn create_account_with_nonce(nonce: u64, new_account_id: AccountId, amount: u64) -> SignedTransaction {
    SignedTransaction::new(
        default_signature(),
        TransactionBody::CreateAccount(CreateAccountTransaction {
            nonce,
            originator: alice_account(),
            new_account_id,
            amount,
            public_key: get_key(),
        }),
    )
}
