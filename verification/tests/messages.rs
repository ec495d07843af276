use node_runtime::error::{push_byte_list, push_decimal, ErrorKind, RuntimeError};

fn error(kind: ErrorKind) -> RuntimeError {
    RuntimeError::short(kind, &"alice.near".to_string(), 12, 50, 100)
}

#[test]
fn decimal_digits() {
    for (n, text) in [
        (0u64, "0"),
        (7, "7"),
        (10, "10"),
        (109, "109"),
        (1000, "1000"),
        (u64::MAX, "18446744073709551615"),
    ] {
        let mut out = "n=".to_string();
        push_decimal(&mut out, n);
        assert_eq!(out, format!("n={}", text));
    }
}

#[test]
fn constructors_fill_what_they_are_given() {
    let plain = RuntimeError::plain(ErrorKind::ZeroAmount);
    assert_eq!(plain.kind, ErrorKind::ZeroAmount);
    assert_eq!(plain.subject, "");
    assert_eq!((plain.requested, plain.staked, plain.available), (0, 0, 0));
    let about = RuntimeError::about(ErrorKind::SenderNotFound, &"eve.near".to_string());
    assert_eq!(about.subject, "eve.near");
    let short = error(ErrorKind::SendOverBalance);
    assert_eq!((short.requested, short.staked, short.available), (12, 50, 100));
}

#[test]
fn messages_of_transactions() {
    assert_eq!(error(ErrorKind::InvalidOriginator).message(), "Invalid originator account_id");
    assert_eq!(error(ErrorKind::SenderNotFound).message(), "sender alice.near does not exist");
    assert_eq!(
        error(ErrorKind::NonceTooSmall).message(),
        "Transaction nonce 12 must be larger than sender nonce 100"
    );
    assert_eq!(error(ErrorKind::InvalidContractId).message(), "Invalid contract_id");
    assert_eq!(
        error(ErrorKind::NotEnoughMana).message(),
        "sender alice.near does not have enough mana 12"
    );
    assert_eq!(error(ErrorKind::ZeroAmount).message(), "Sending 0 amount of money");
    assert_eq!(
        error(ErrorKind::SendOverBalance).message(),
        "Account alice.near tries to send 12, but has staked 50 and only has 100"
    );
    assert_eq!(
        error(ErrorKind::StakeOverBalance).message(),
        "Account alice.near tries to stake 12, but has staked 50 and only has 100"
    );
    assert_eq!(
        error(ErrorKind::NoPublicKey).message(),
        "Account alice.near has no public key to stake with"
    );
    assert_eq!(
        error(ErrorKind::InvalidAccountId).message(),
        "Account alice.near does not match requirements"
    );
    assert_eq!(
        error(ErrorKind::CreateOverBalance).message(),
        "Account alice.near tries to create new account with 12, but only has 100"
    );
    assert_eq!(error(ErrorKind::BadPublicKey).message(), "cannot decode public key");
    assert_eq!(
        error(ErrorKind::KeyNotFound).message(),
        "Account alice.near does not have public key []"
    );
    assert_eq!(
        error(ErrorKind::CallOverBalance).message(),
        "Account alice.near tries to call some contract with the amount 12, but has staked 50 and only has 100"
    );
}

#[test]
fn messages_of_receipts() {
    assert_eq!(error(ErrorKind::BadArgs).message(), "cannot decode args");
    assert_eq!(
        error(ErrorKind::KeyNotAuthorized).message(),
        "Account alice.near does not contain key []"
    );
    assert_eq!(error(ErrorKind::ReceiverNotFound).message(), "receiver alice.near does not exist");
    assert_eq!(
        error(ErrorKind::CodeNotFound).message(),
        "cannot find contract code for account alice.near"
    );
    assert_eq!(
        error(ErrorKind::NoContractCode).message(),
        "account alice.near does not have contract code"
    );
    assert_eq!(error(ErrorKind::CallbackNotFound).message(), "callback id: [] not found");
    assert_eq!(error(ErrorKind::ResultIndexOutOfRange).message(), "callback has no slot 12");
    assert_eq!(
        error(ErrorKind::PreparationFailed).message(),
        "wasm async call preparation failed with error: alice.near"
    );
    assert_eq!(
        error(ErrorKind::ExecutionFailed).message(),
        "wasm async call execution failed with error: alice.near"
    );
    assert_eq!(
        error(ErrorKind::CallbackExecutionFailed).message(),
        "wasm callback execution failed with error: alice.near"
    );
    assert_eq!(error(ErrorKind::ReceiptHasCallback).message(), "receipt already has callback");
    assert_eq!(error(ErrorKind::CallbackHasCallback).message(), "callback already has callback");
    assert_eq!(
        error(ErrorKind::NonCallbackPromise).message(),
        "return data is a non-callback promise"
    );
    assert_eq!(error(ErrorKind::PromiseNotFound).message(), "returned promise does not exist");
    assert_eq!(
        error(ErrorKind::BalanceOverflow).message(),
        "Account alice.near cannot hold the amount"
    );
    assert_eq!(
        error(ErrorKind::TxStakeNotFound).message(),
        "TX stake doesn't exist when mana accounting arrived"
    );
    assert_eq!(
        error(ErrorKind::AuthorityNotFound).message(),
        "authority alice.near does not have an account"
    );
    assert_eq!(
        error(ErrorKind::DatabaseNotEmpty).message(),
        "genesis state needs an empty database"
    );
}

#[test]
fn failure_log_is_prefixed() {
    assert_eq!(
        error(ErrorKind::ZeroAmount).failure_log(),
        "Runtime error: Sending 0 amount of money"
    );
}

#[test]
fn byte_lists() {
    for bytes in [vec![], vec![0u8], vec![255], vec![1, 2], vec![10, 0, 200, 7]] {
        let mut out = "id ".to_string();
        push_byte_list(&mut out, &bytes);
        assert_eq!(out, format!("id {:?}", bytes));
    }
    let mut out = String::new();
    push_byte_list(&mut out, &[1, 20, 255]);
    assert_eq!(out, "[1, 20, 255]");
}

#[test]
fn messages_render_the_bytes_that_they_are_about() {
    let alice = "alice.near".to_string();
    let missing = RuntimeError::with_bytes(ErrorKind::CallbackNotFound, &String::new(), &[0, 1, 2]);
    assert_eq!(missing.data, vec![0, 1, 2]);
    assert_eq!(missing.message(), "callback id: [0, 1, 2] not found");
    assert_eq!(
        RuntimeError::with_bytes(ErrorKind::CallbackNotFound, &String::new(), &[0; 32]).message(),
        format!("callback id: {:?} not found", vec![0u8; 32])
    );
    assert_eq!(
        RuntimeError::with_bytes(ErrorKind::KeyNotFound, &alice, &[9, 8]).message(),
        "Account alice.near does not have public key [9, 8]"
    );
    assert_eq!(
        RuntimeError::with_bytes(ErrorKind::KeyNotAuthorized, &alice, &[9, 8]).message(),
        "Account alice.near does not contain key [9, 8]"
    );
}
