//! Applying signed transactions: each is checked against its originator's
//! account, charged mana, and turned into state changes and receipts.
use crate::bytes::{bytes_list, same_bytes};
use crate::error::{
    spec_about, spec_plain, spec_short, spec_with_bytes, ErrorKind, RuntimeError, RuntimeErrorView,
};
use crate::hash::{create_nonce_with_nonce, spec_nonce};
use crate::keys::{
    is_valid_account_id, spec_method_create_account, spec_method_deploy, spec_valid_account_id,
    system_method_create_account, system_method_deploy,
};
use crate::mana::{spec_try_charge_mana, try_charge_mana};
use crate::records::{
    decode_public_key, enc_deploy_args, encode_deploy_args, get_account, set_account,
    spec_decode_public_key, spec_get_account, spec_set_account, Account, AccountView,
};
use crate::state::{only_staged, StateDbUpdate, StateMap};
use crate::transaction::{
    CreateAccountTransaction, CreateAccountView, DeployContractTransaction, DeployContractView,
    FunctionCallTransaction, FunctionCallView, SendMoneyTransaction, SendMoneyView,
    SignedTransaction, StakeTransaction, StakeView, SwapKeyTransaction, SwapKeyView,
    TransactionBody, TransactionBodyView,
};
use crate::types::{
    lemma_views_push, no_receipts, spec_async_call, views, AccountId, AccountingInfo,
    AccountingInfoView, AsyncCall, AuthorityStake, AuthorityStakeView, BlockIndex, Mana, PublicKey,
    ReceiptBody, ReceiptBodyView, ReceiptTransaction, ReceiptView,
};
use vstd::prelude::*;

verus! {

/// What applying an input gave: receipts, or the reason for which it failed.
pub type Applied = Result<Seq<ReceiptView>, RuntimeErrorView>;

/// The view of what an applier returned.
pub open spec fn applied(r: Result<Vec<ReceiptTransaction>, RuntimeError>) -> Applied {
    match r {
        Ok(receipts) => Ok(views(receipts@)),
        Err(e) => Err(e@),
    }
}

/// What a handler of a transaction did: its result, the state that it
/// left, the originator's account as it left it, and the stake proposals.
pub ghost struct TxEffect {
    pub result: Applied,
    pub state: StateMap,
    pub sender: AccountView,
    pub proposals: Seq<AuthorityStakeView>,
}

/// The receipt with which a transaction calls `method_name` of `receiver`:
/// it carries the first identifier derived from the transaction's hash.
pub open spec fn spec_call_receipt(
    originator: Seq<char>,
    receiver: Seq<char>,
    hash: Seq<u8>,
    method_name: Seq<u8>,
    args: Seq<u8>,
    amount: u64,
    mana: Mana,
    info: AccountingInfoView,
) -> ReceiptView {
    ReceiptView {
        originator,
        receiver,
        nonce: spec_nonce(hash, 0),
        body: ReceiptBodyView::NewCall(spec_async_call(method_name, args, amount, mana, info)),
    }
}

fn call_receipt(
    originator: &AccountId,
    receiver: &AccountId,
    hash: &[u8],
    method_name: Vec<u8>,
    args: Vec<u8>,
    amount: u64,
    mana: Mana,
    info: AccountingInfo,
) -> (r: Vec<ReceiptTransaction>)
    ensures
        views(r@) == seq![
            spec_call_receipt(
                originator@,
                receiver@,
                hash@,
                method_name@,
                args@,
                amount,
                mana,
                info@,
            ),
        ],
{
    let receipt = ReceiptTransaction::new(
        originator.clone(),
        receiver.clone(),
        create_nonce_with_nonce(hash, 0),
        ReceiptBody::NewCall(AsyncCall::new(method_name, args, amount, mana, info)),
    );
    let r = vec![receipt];
    assert(views(r@) =~= seq![r@[0]@]);
    r
}

// ---------------------------------------------------------------------------
// Send money
// ---------------------------------------------------------------------------
/// A transfer of nothing fails, and so does one of more than the sender
/// has. Otherwise the sender is debited and a deposit goes to the receiver.
pub open spec fn spec_send_money(
    state: StateMap,
    t: SendMoneyView,
    hash: Seq<u8>,
    sender: AccountView,
    info: AccountingInfoView,
    proposals: Seq<AuthorityStakeView>,
) -> TxEffect {
    if t.amount == 0 {
        TxEffect { result: Err(spec_plain(ErrorKind::ZeroAmount)), state, sender, proposals }
    } else if sender.amount >= t.amount {
        let debited = AccountView { amount: (sender.amount - t.amount) as u64, ..sender };
        TxEffect {
            result: Ok(
                seq![
                    spec_call_receipt(
                        t.originator,
                        t.receiver,
                        hash,
                        Seq::empty(),
                        Seq::empty(),
                        t.amount,
                        0,
                        info,
                    ),
                ],
            ),
            state: spec_set_account(state, t.originator, debited),
            sender: debited,
            proposals,
        }
    } else {
        TxEffect {
            result: Err(
                spec_short(
                    ErrorKind::SendOverBalance,
                    t.originator,
                    t.amount,
                    sender.staked,
                    sender.amount,
                ),
            ),
            state,
            sender,
            proposals,
        }
    }
}

/// Debits `sender` and sends the amount to the receiver.
pub fn send_money(
    state_update: &mut StateDbUpdate,
    transaction: &SendMoneyTransaction,
    hash: &[u8],
    sender: &mut Account,
    accounting_info: AccountingInfo,
) -> (r: Result<Vec<ReceiptTransaction>, RuntimeError>)
    requires
        old(state_update).wf(),
    ensures
        only_staged(old(state_update), final(state_update)),
        ({
            let effect = spec_send_money(
                old(state_update)@,
                transaction@,
                hash@,
                old(sender)@,
                accounting_info@,
                Seq::empty(),
            );
            &&& applied(r) == effect.result
            &&& final(state_update)@ == effect.state
            &&& final(sender)@ == effect.sender
        }),
{
    if transaction.amount == 0 {
        return Err(RuntimeError::plain(ErrorKind::ZeroAmount));
    }
    if sender.amount >= transaction.amount {
        sender.amount -= transaction.amount;
        set_account(state_update, &transaction.originator, sender);
        Ok(
            call_receipt(
                &transaction.originator,
                &transaction.receiver,
                hash,
                Vec::new(),
                Vec::new(),
                transaction.amount,
                0,
                accounting_info,
            ),
        )
    } else {
        Err(
            RuntimeError::short(
                ErrorKind::SendOverBalance,
                &transaction.originator,
                transaction.amount,
                sender.staked,
                sender.amount,
            ),
        )
    }
}

// ---------------------------------------------------------------------------
// Stake
// ---------------------------------------------------------------------------
/// An account that has the amount and a public key moves the amount from
/// its balance to its stake and proposes itself under its first key.
pub open spec fn spec_staking(
    state: StateMap,
    t: StakeView,
    sender_id: Seq<char>,
    sender: AccountView,
    proposals: Seq<AuthorityStakeView>,
) -> TxEffect {
    if sender.amount < t.amount {
        TxEffect {
            result: Err(
                spec_short(
                    ErrorKind::StakeOverBalance,
                    t.originator,
                    t.amount,
                    sender.staked,
                    sender.amount,
                ),
            ),
            state,
            sender,
            proposals,
        }
    } else if sender.public_keys.len() == 0 {
        TxEffect {
            result: Err(spec_about(ErrorKind::NoPublicKey, t.originator)),
            state,
            sender,
            proposals,
        }
    } else if sender.staked + t.amount > u64::MAX {
        TxEffect {
            result: Err(spec_about(ErrorKind::BalanceOverflow, t.originator)),
            state,
            sender,
            proposals,
        }
    } else {
        let staked = AccountView {
            amount: (sender.amount - t.amount) as u64,
            staked: (sender.staked + t.amount) as u64,
            ..sender
        };
        TxEffect {
            result: Ok(Seq::empty()),
            state: spec_set_account(state, sender_id, staked),
            sender: staked,
            proposals: proposals.push(
                AuthorityStakeView {
                    account_id: sender_id,
                    public_key: sender.public_keys[0],
                    amount: t.amount,
                },
            ),
        }
    }
}

/// Moves the amount from the balance of `sender` to its stake and proposes it as an authority.
pub fn staking(
    state_update: &mut StateDbUpdate,
    body: &StakeTransaction,
    sender_account_id: &AccountId,
    sender: &mut Account,
    authority_proposals: &mut Vec<AuthorityStake>,
) -> (r: Result<Vec<ReceiptTransaction>, RuntimeError>)
    requires
        old(state_update).wf(),
    ensures
        only_staged(old(state_update), final(state_update)),
        ({
            let effect = spec_staking(
                old(state_update)@,
                body@,
                sender_account_id@,
                old(sender)@,
                views(old(authority_proposals)@),
            );
            &&& applied(r) == effect.result
            &&& final(state_update)@ == effect.state
            &&& final(sender)@ == effect.sender
            &&& views(final(authority_proposals)@) == effect.proposals
        }),
{
    if sender.amount < body.amount {
        return Err(
            RuntimeError::short(
                ErrorKind::StakeOverBalance,
                &body.originator,
                body.amount,
                sender.staked,
                sender.amount,
            ),
        );
    }
    if sender.public_keys.len() == 0 {
        return Err(RuntimeError::about(ErrorKind::NoPublicKey, &body.originator));
    }
    let staked = match sender.staked.checked_add(body.amount) {
        Some(staked) => staked,
        None => {
            return Err(RuntimeError::about(ErrorKind::BalanceOverflow, &body.originator));
        },
    };
    let proposal = AuthorityStake {
        account_id: sender_account_id.clone(),
        public_key: sender.public_keys[0].clone(),
        amount: body.amount,
    };
    proof {
        lemma_views_push(authority_proposals@, proposal);
    }
    authority_proposals.push(proposal);
    sender.amount -= body.amount;
    sender.staked = staked;
    set_account(state_update, sender_account_id, sender);
    Ok(no_receipts())
}

// ---------------------------------------------------------------------------
// Create account
// ---------------------------------------------------------------------------
/// The new id must be valid and the creator must have the amount. The
/// creator is debited, and the system method that creates the account is
/// called on the new id with the public key and the amount.
pub open spec fn spec_create_account(
    state: StateMap,
    t: CreateAccountView,
    hash: Seq<u8>,
    sender: AccountView,
    info: AccountingInfoView,
    proposals: Seq<AuthorityStakeView>,
) -> TxEffect {
    if !spec_valid_account_id(t.new_account_id) {
        TxEffect {
            result: Err(spec_about(ErrorKind::InvalidAccountId, t.new_account_id)),
            state,
            sender,
            proposals,
        }
    } else if sender.amount >= t.amount {
        let debited = AccountView { amount: (sender.amount - t.amount) as u64, ..sender };
        TxEffect {
            result: Ok(
                seq![
                    spec_call_receipt(
                        t.originator,
                        t.new_account_id,
                        hash,
                        spec_method_create_account(),
                        t.public_key,
                        t.amount,
                        0,
                        info,
                    ),
                ],
            ),
            state: spec_set_account(state, t.originator, debited),
            sender: debited,
            proposals,
        }
    } else {
        TxEffect {
            result: Err(
                spec_short(ErrorKind::CreateOverBalance, t.originator, t.amount, 0, sender.amount),
            ),
            state,
            sender,
            proposals,
        }
    }
}

/// Debits `sender` and asks for the new account to be created with the amount.
pub fn create_account(
    state_update: &mut StateDbUpdate,
    body: &CreateAccountTransaction,
    hash: &[u8],
    sender: &mut Account,
    accounting_info: AccountingInfo,
) -> (r: Result<Vec<ReceiptTransaction>, RuntimeError>)
    requires
        old(state_update).wf(),
    ensures
        only_staged(old(state_update), final(state_update)),
        ({
            let effect = spec_create_account(
                old(state_update)@,
                body@,
                hash@,
                old(sender)@,
                accounting_info@,
                Seq::empty(),
            );
            &&& applied(r) == effect.result
            &&& final(state_update)@ == effect.state
            &&& final(sender)@ == effect.sender
        }),
{
    if !is_valid_account_id(&body.new_account_id) {
        return Err(RuntimeError::about(ErrorKind::InvalidAccountId, &body.new_account_id));
    }
    if sender.amount >= body.amount {
        sender.amount -= body.amount;
        set_account(state_update, &body.originator, sender);
        Ok(
            call_receipt(
                &body.originator,
                &body.new_account_id,
                hash,
                system_method_create_account(),
                body.public_key.clone(),
                body.amount,
                0,
                accounting_info,
            ),
        )
    } else {
        Err(
            RuntimeError::short(
                ErrorKind::CreateOverBalance,
                &body.originator,
                body.amount,
                0,
                sender.amount,
            ),
        )
    }
}

// ---------------------------------------------------------------------------
// Swap key
// ---------------------------------------------------------------------------
/// The keys of `keys` that are not `key`, in their order.
pub open spec fn spec_without(keys: Seq<Seq<u8>>, key: Seq<u8>) -> Seq<Seq<u8>>
    decreases keys.len(),
{
    if keys.len() == 0 {
        Seq::empty()
    } else if keys.last() == key {
        spec_without(keys.drop_last(), key)
    } else {
        spec_without(keys.drop_last(), key).push(keys.last())
    }
}

/// Removing a key leaves those that differ from it, and no more than there were.
pub proof fn lemma_without(keys: Seq<Seq<u8>>, key: Seq<u8>)
    ensures
        spec_without(keys, key).len() <= keys.len(),
        !spec_without(keys, key).contains(key),
        forall|k: Seq<u8>| k != key && keys.contains(k) ==> spec_without(keys, key).contains(k),
        spec_without(keys, key).len() == keys.len() <==> !keys.contains(key),
    decreases keys.len(),
{
    if keys.len() > 0 {
        let rest = keys.drop_last();
        lemma_without(rest, key);
        let w = spec_without(rest, key);
        assert forall|k: Seq<u8>| k != key && keys.contains(k) implies spec_without(
            keys,
            key,
        ).contains(k) by {
            let i = choose|i: int| 0 <= i < keys.len() && keys[i] == k;
            if i < rest.len() {
                assert(rest[i] == k);
                assert(rest.contains(k));
                let j = choose|j: int| 0 <= j < w.len() && w[j] == k;
                if keys.last() != key {
                    assert(w.push(keys.last())[j] == k);
                }
            } else {
                assert(w.push(keys.last())[w.len() as int] == k);
            }
        }
        if keys.last() == key {
            assert(keys[keys.len() - 1] == key);
        } else {
            let r = w.push(keys.last());
            assert forall|i: int| 0 <= i < r.len() implies r[i] != key by {
                if i < w.len() {
                    assert(w[i] == r[i]);
                    assert(w.contains(r[i]));
                }
            }
            if keys.contains(key) {
                let i = choose|i: int| 0 <= i < keys.len() && keys[i] == key;
                assert(rest[i] == key);
                assert(rest.contains(key));
            }
            if rest.contains(key) {
                let i = choose|i: int| 0 <= i < rest.len() && rest[i] == key;
                assert(keys[i] == key);
            }
        }
    }
}

/// Both keys must be public keys and the account must hold the current
/// one, which leaves the account; the new one is added at the end.
pub open spec fn spec_swap_key(
    state: StateMap,
    t: SwapKeyView,
    account: AccountView,
    proposals: Seq<AuthorityStakeView>,
) -> TxEffect {
    if spec_decode_public_key(t.cur_key) is None || spec_decode_public_key(t.new_key) is None {
        TxEffect {
            result: Err(spec_plain(ErrorKind::BadPublicKey)),
            state,
            sender: account,
            proposals,
        }
    } else if !account.public_keys.contains(t.cur_key) {
        TxEffect {
            result: Err(spec_with_bytes(ErrorKind::KeyNotFound, t.originator, t.cur_key)),
            state,
            sender: account,
            proposals,
        }
    } else {
        let swapped = AccountView {
            public_keys: spec_without(account.public_keys, t.cur_key).push(t.new_key),
            ..account
        };
        TxEffect {
            result: Ok(Seq::empty()),
            state: spec_set_account(state, t.originator, swapped),
            sender: swapped,
            proposals,
        }
    }
}

fn without(keys: &Vec<PublicKey>, key: &PublicKey) -> (r: Vec<PublicKey>)
    ensures
        bytes_list(r@) == spec_without(bytes_list(keys@), key@),
{
    let mut r: Vec<PublicKey> = Vec::new();
    let mut i: usize = 0;
    let ghost all = bytes_list(keys@);
    assert(all.take(0) =~= Seq::empty());
    assert(bytes_list(r@) =~= Seq::empty());
    while i < keys.len()
        invariant
            i <= keys.len(),
            all == bytes_list(keys@),
            bytes_list(r@) == spec_without(all.take(i as int), key@),
        decreases keys.len() - i,
    {
        let ghost before = bytes_list(r@);
        proof {
            assert(all.take(i + 1).drop_last() =~= all.take(i as int));
            assert(all.take(i + 1).last() == keys@[i as int]@);
        }
        if !same_bytes(keys[i].as_slice(), key.as_slice()) {
            r.push(keys[i].clone());
            assert(bytes_list(r@) =~= before.push(keys@[i as int]@));
        }
        i += 1;
    }
    assert(all.take(keys.len() as int) =~= all);
    r
}

/// Replaces a public key of `account` by another.
pub fn swap_key(
    state_update: &mut StateDbUpdate,
    body: &SwapKeyTransaction,
    account: &mut Account,
) -> (r: Result<Vec<ReceiptTransaction>, RuntimeError>)
    requires
        old(state_update).wf(),
    ensures
        only_staged(old(state_update), final(state_update)),
        ({
            let effect = spec_swap_key(old(state_update)@, body@, old(account)@, Seq::empty());
            &&& applied(r) == effect.result
            &&& final(state_update)@ == effect.state
            &&& final(account)@ == effect.sender
        }),
{
    let cur_key = match decode_public_key(body.cur_key.as_slice()) {
        Some(k) => k,
        None => {
            return Err(RuntimeError::plain(ErrorKind::BadPublicKey));
        },
    };
    let new_key = match decode_public_key(body.new_key.as_slice()) {
        Some(k) => k,
        None => {
            return Err(RuntimeError::plain(ErrorKind::BadPublicKey));
        },
    };
    let mut keys = without(&account.public_keys, &cur_key);
    proof {
        lemma_without(bytes_list(account.public_keys@), cur_key@);
    }
    if keys.len() == account.public_keys.len() {
        return Err(
            RuntimeError::with_bytes(ErrorKind::KeyNotFound, &body.originator, cur_key.as_slice()),
        );
    }
    let ghost kept = bytes_list(keys@);
    keys.push(new_key);
    assert(bytes_list(keys@) =~= kept.push(body.new_key@));
    account.public_keys = keys;
    set_account(state_update, &body.originator, account);
    Ok(no_receipts())
}

// ---------------------------------------------------------------------------
// Deploy
// ---------------------------------------------------------------------------
/// The system method that deploys is called on the contract's account with
/// the public key and the code.
pub open spec fn spec_deploy(t: DeployContractView, hash: Seq<u8>, info: AccountingInfoView) -> Applied {
    Ok(
        seq![
            spec_call_receipt(
                t.originator,
                t.contract_id,
                hash,
                spec_method_deploy(),
                enc_deploy_args(t.public_key, t.wasm_byte_array),
                0,
                0,
                info,
            ),
        ],
    )
}

/// Asks for the code to be deployed on the account of the contract.
pub fn deploy(body: &DeployContractTransaction, hash: &[u8], accounting_info: AccountingInfo) -> (r:
    Result<Vec<ReceiptTransaction>, RuntimeError>)
    ensures
        applied(r) == spec_deploy(body@, hash@, accounting_info@),
{
    let args = encode_deploy_args(body.public_key.as_slice(), body.wasm_byte_array.as_slice());
    Ok(
        call_receipt(
            &body.originator,
            &body.contract_id,
            hash,
            system_method_deploy(),
            args,
            0,
            0,
            accounting_info,
        ),
    )
}

// ---------------------------------------------------------------------------
// Function call
// ---------------------------------------------------------------------------
/// The caller must have the amount. It is debited, and the method is
/// called with the amount and with the mana that is left after the
/// transaction took its unit.
pub open spec fn spec_call_function(
    state: StateMap,
    t: FunctionCallView,
    hash: Seq<u8>,
    sender: AccountView,
    info: AccountingInfoView,
    mana: Mana,
    proposals: Seq<AuthorityStakeView>,
) -> TxEffect {
    if sender.amount >= t.amount {
        let debited = AccountView { amount: (sender.amount - t.amount) as u64, ..sender };
        TxEffect {
            result: Ok(
                seq![
                    spec_call_receipt(
                        t.originator,
                        t.contract_id,
                        hash,
                        t.method_name,
                        t.args,
                        t.amount,
                        (mana - 1) as u32,
                        info,
                    ),
                ],
            ),
            state: spec_set_account(state, t.originator, debited),
            sender: debited,
            proposals,
        }
    } else {
        TxEffect {
            result: Err(
                spec_short(
                    ErrorKind::CallOverBalance,
                    t.originator,
                    t.amount,
                    sender.staked,
                    sender.amount,
                ),
            ),
            state,
            sender,
            proposals,
        }
    }
}

/// Debits `sender` and calls the method of the contract with the amount.
pub fn call_function(
    state_update: &mut StateDbUpdate,
    transaction: &FunctionCallTransaction,
    hash: &[u8],
    sender: &mut Account,
    accounting_info: AccountingInfo,
    mana: Mana,
) -> (r: Result<Vec<ReceiptTransaction>, RuntimeError>)
    requires
        old(state_update).wf(),
        mana >= 1,
    ensures
        only_staged(old(state_update), final(state_update)),
        ({
            let effect = spec_call_function(
                old(state_update)@,
                transaction@,
                hash@,
                old(sender)@,
                accounting_info@,
                mana,
                Seq::empty(),
            );
            &&& applied(r) == effect.result
            &&& final(state_update)@ == effect.state
            &&& final(sender)@ == effect.sender
        }),
{
    if sender.amount >= transaction.amount {
        sender.amount -= transaction.amount;
        set_account(state_update, &transaction.originator, sender);
        Ok(
            call_receipt(
                &transaction.originator,
                &transaction.contract_id,
                hash,
                transaction.method_name.clone(),
                transaction.args.clone(),
                transaction.amount,
                mana - 1,
                accounting_info,
            ),
        )
    } else {
        Err(
            RuntimeError::short(
                ErrorKind::CallOverBalance,
                &transaction.originator,
                transaction.amount,
                sender.staked,
                sender.amount,
            ),
        )
    }
}

// ---------------------------------------------------------------------------
// The applier
// ---------------------------------------------------------------------------
/// What applying a transaction gave: its result, the state that it left
/// staged, and the stake proposals.
pub ghost struct TxOutcome {
    pub result: Applied,
    pub state: StateMap,
    pub proposals: Seq<AuthorityStakeView>,
}

/// What the handler of the transaction's kind does.
pub open spec fn spec_dispatch(
    state: StateMap,
    body: TransactionBodyView,
    sender_id: Seq<char>,
    sender: AccountView,
    info: AccountingInfoView,
    mana: Mana,
    proposals: Seq<AuthorityStakeView>,
) -> TxEffect {
    match body {
        TransactionBodyView::SendMoney(t) => spec_send_money(
            state,
            t,
            body.hash(),
            sender,
            info,
            proposals,
        ),
        TransactionBodyView::Stake(t) => spec_staking(state, t, sender_id, sender, proposals),
        TransactionBodyView::FunctionCall(t) => spec_call_function(
            state,
            t,
            body.hash(),
            sender,
            info,
            mana,
            proposals,
        ),
        TransactionBodyView::DeployContract(t) => TxEffect {
            result: spec_deploy(t, body.hash(), info),
            state,
            sender,
            proposals,
        },
        TransactionBodyView::CreateAccount(t) => spec_create_account(
            state,
            t,
            body.hash(),
            sender,
            info,
            proposals,
        ),
        TransactionBodyView::SwapKey(t) => spec_swap_key(state, t, sender, proposals),
    }
}

/// Applying a transaction: the originator must be a valid id with an
/// account, and the nonce must be above the account's, which takes it.
/// The contract, where there is one, must be a valid id. The mana is
/// charged, and the handler of the transaction's kind does the rest.
#[verifier::opaque]
pub open spec fn spec_apply_signed_transaction(
    state: StateMap,
    block_index: BlockIndex,
    body: TransactionBodyView,
    proposals: Seq<AuthorityStakeView>,
) -> TxOutcome {
    let sender_id = body.originator();
    if !spec_valid_account_id(sender_id) {
        TxOutcome { result: Err(spec_plain(ErrorKind::InvalidOriginator)), state, proposals }
    } else {
        match spec_get_account(state, sender_id) {
            None => TxOutcome {
                result: Err(spec_about(ErrorKind::SenderNotFound, sender_id)),
                state,
                proposals,
            },
            Some(found) => if body.nonce() <= found.nonce {
                TxOutcome {
                    result: Err(
                        spec_short(
                            ErrorKind::NonceTooSmall,
                            Seq::empty(),
                            body.nonce(),
                            0,
                            found.nonce,
                        ),
                    ),
                    state,
                    proposals,
                }
            } else {
                let sender = AccountView { nonce: body.nonce(), ..found };
                let noted = spec_set_account(state, sender_id, sender);
                if body.contract_id() is Some && !spec_valid_account_id(
                    body.contract_id().unwrap(),
                ) {
                    TxOutcome {
                        result: Err(spec_plain(ErrorKind::InvalidContractId)),
                        state: noted,
                        proposals,
                    }
                } else {
                    match spec_try_charge_mana(
                        noted,
                        block_index,
                        sender_id,
                        body.contract_id(),
                        body.mana(),
                    ) {
                        None => TxOutcome {
                            result: Err(
                                spec_short(
                                    ErrorKind::NotEnoughMana,
                                    sender_id,
                                    body.mana() as u64,
                                    0,
                                    0,
                                ),
                            ),
                            state: noted,
                            proposals,
                        },
                        Some((info, charged)) => {
                            let effect = spec_dispatch(
                                charged,
                                body,
                                sender_id,
                                sender,
                                info,
                                body.mana(),
                                proposals,
                            );
                            TxOutcome {
                                result: effect.result,
                                state: effect.state,
                                proposals: effect.proposals,
                            }
                        },
                    }
                }
            },
        }
    }
}

/// Applies a signed transaction to the staged state and returns the
/// receipts that it sends.
pub fn apply_signed_transaction(
    state_update: &mut StateDbUpdate,
    block_index: BlockIndex,
    transaction: &SignedTransaction,
    authority_proposals: &mut Vec<AuthorityStake>,
) -> (r: Result<Vec<ReceiptTransaction>, RuntimeError>)
    requires
        old(state_update).wf(),
    ensures
        only_staged(old(state_update), final(state_update)),
        ({
            let outcome = spec_apply_signed_transaction(
                old(state_update)@,
                block_index,
                transaction@.body,
                views(old(authority_proposals)@),
            );
            &&& applied(r) == outcome.result
            &&& final(state_update)@ == outcome.state
            &&& views(final(authority_proposals)@) == outcome.proposals
        }),
        r is Ok ==> ({
            let before = spec_get_account(old(state_update)@, transaction@.body.originator());
            let after = spec_get_account(final(state_update)@, transaction@.body.originator());
            &&& before is Some
            &&& after is Some
            &&& transaction@.body.nonce() > before.unwrap().nonce
            &&& after.unwrap().nonce == transaction@.body.nonce()
        }),
        r is Ok ==> crate::laws::spec_numbered(views(r.unwrap()@), transaction@.body.hash()),
{
    proof {
        reveal(spec_apply_signed_transaction);
    }
    let sender_account_id = transaction.body.get_originator();
    if !is_valid_account_id(&sender_account_id) {
        return Err(RuntimeError::plain(ErrorKind::InvalidOriginator));
    }
    let mut sender = match get_account(state_update, &sender_account_id) {
        Some(sender) => sender,
        None => {
            return Err(RuntimeError::about(ErrorKind::SenderNotFound, &sender_account_id));
        },
    };
    let nonce = transaction.body.get_nonce();
    if nonce <= sender.nonce {
        return Err(
            RuntimeError::short(ErrorKind::NonceTooSmall, &String::new(), nonce, 0, sender.nonce),
        );
    }
    sender.nonce = nonce;
    set_account(state_update, &sender_account_id, &sender);
    let contract_id = transaction.body.get_contract_id();
    if let Some(contract_id) = &contract_id {
        if !is_valid_account_id(contract_id) {
            return Err(RuntimeError::plain(ErrorKind::InvalidContractId));
        }
    }
    let mana = transaction.body.get_mana();
    let accounting_info = match try_charge_mana(
        state_update,
        block_index,
        &sender_account_id,
        &contract_id,
        mana,
    ) {
        Some(info) => info,
        None => {
            return Err(
                RuntimeError::short(
                    ErrorKind::NotEnoughMana,
                    &sender_account_id,
                    mana as u64,
                    0,
                    0,
                ),
            );
        },
    };
    let hash = transaction.get_hash();
    let r = match &transaction.body {
        TransactionBody::SendMoney(t) => send_money(
            state_update,
            t,
            hash.as_slice(),
            &mut sender,
            accounting_info,
        ),
        TransactionBody::Stake(t) => staking(
            state_update,
            t,
            &sender_account_id,
            &mut sender,
            authority_proposals,
        ),
        TransactionBody::FunctionCall(t) => call_function(
            state_update,
            t,
            hash.as_slice(),
            &mut sender,
            accounting_info,
            mana,
        ),
        TransactionBody::DeployContract(t) => deploy(t, hash.as_slice(), accounting_info),
        TransactionBody::CreateAccount(t) => create_account(
            state_update,
            t,
            hash.as_slice(),
            &mut sender,
            accounting_info,
        ),
        TransactionBody::SwapKey(t) => swap_key(state_update, t, &mut sender),
    };
    proof {
        if r is Ok {
            crate::laws::lemma_nonce_monotonic(
                old(state_update)@,
                block_index,
                transaction@.body,
                views(old(authority_proposals)@),
            );
            crate::laws::lemma_transaction_nonces(
                old(state_update)@,
                block_index,
                transaction@.body,
                views(old(authority_proposals)@),
            );
        }
    }
    r
}

} // verus!
