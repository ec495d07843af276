//! Signed transactions: what an account asks the runtime to do.
use crate::codec::{enc_bytes, enc_string, enc_u64, write_bytes, write_string, write_u64};
use crate::hash::{hash, spec_hash, CryptoHash, HASH_LEN};
use crate::types::{AccountId, Balance, Mana};
use vstd::prelude::*;

verus! {

/// Moves `amount` from `originator` to `receiver`.
#[derive(Clone, Debug, PartialEq, Eq)]
pub struct SendMoneyTransaction {
    pub nonce: u64,
    pub originator: AccountId,
    pub receiver: AccountId,
    pub amount: Balance,
}

/// Locks `amount` of `originator` as stake.
#[derive(Clone, Debug, PartialEq, Eq)]
pub struct StakeTransaction {
    pub nonce: u64,
    pub originator: AccountId,
    pub amount: Balance,
}

/// Creates `new_account_id` with `amount` from `originator` and the key `public_key`.
#[derive(Clone, Debug, PartialEq, Eq)]
pub struct CreateAccountTransaction {
    pub nonce: u64,
    pub originator: AccountId,
    pub new_account_id: AccountId,
    pub amount: Balance,
    pub public_key: Vec<u8>,
}

/// Deploys `wasm_byte_array` as the code of `contract_id`.
#[derive(Clone, Debug, PartialEq, Eq)]
pub struct DeployContractTransaction {
    pub nonce: u64,
    pub originator: AccountId,
    pub contract_id: AccountId,
    pub public_key: Vec<u8>,
    pub wasm_byte_array: Vec<u8>,
}

/// Replaces the key `cur_key` of `originator` by `new_key`.
#[derive(Clone, Debug, PartialEq, Eq)]
pub struct SwapKeyTransaction {
    pub nonce: u64,
    pub originator: AccountId,
    pub cur_key: Vec<u8>,
    pub new_key: Vec<u8>,
}

/// Calls `method_name` of `contract_id` with `args` and `amount`.
#[derive(Clone, Debug, PartialEq, Eq)]
pub struct FunctionCallTransaction {
    pub nonce: u64,
    pub originator: AccountId,
    pub contract_id: AccountId,
    pub method_name: Vec<u8>,
    pub args: Vec<u8>,
    pub amount: Balance,
}

/// What a transaction asks for.
#[derive(Clone, Debug, PartialEq, Eq)]
pub enum TransactionBody {
    SendMoney(SendMoneyTransaction),
    Stake(StakeTransaction),
    CreateAccount(CreateAccountTransaction),
    DeployContract(DeployContractTransaction),
    SwapKey(SwapKeyTransaction),
    FunctionCall(FunctionCallTransaction),
}

/// What a `SendMoneyTransaction` holds, as contracts speak of it.
pub ghost struct SendMoneyView {
    pub nonce: u64,
    pub originator: Seq<char>,
    pub receiver: Seq<char>,
    pub amount: Balance,
}

/// What a `StakeTransaction` holds, as contracts speak of it.
pub ghost struct StakeView {
    pub nonce: u64,
    pub originator: Seq<char>,
    pub amount: Balance,
}

/// What a `CreateAccountTransaction` holds, as contracts speak of it.
pub ghost struct CreateAccountView {
    pub nonce: u64,
    pub originator: Seq<char>,
    pub new_account_id: Seq<char>,
    pub amount: Balance,
    pub public_key: Seq<u8>,
}

/// What a `DeployContractTransaction` holds, as contracts speak of it.
pub ghost struct DeployContractView {
    pub nonce: u64,
    pub originator: Seq<char>,
    pub contract_id: Seq<char>,
    pub public_key: Seq<u8>,
    pub wasm_byte_array: Seq<u8>,
}

/// What a `SwapKeyTransaction` holds, as contracts speak of it.
pub ghost struct SwapKeyView {
    pub nonce: u64,
    pub originator: Seq<char>,
    pub cur_key: Seq<u8>,
    pub new_key: Seq<u8>,
}

/// What a `FunctionCallTransaction` holds, as contracts speak of it.
pub ghost struct FunctionCallView {
    pub nonce: u64,
    pub originator: Seq<char>,
    pub contract_id: Seq<char>,
    pub method_name: Seq<u8>,
    pub args: Seq<u8>,
    pub amount: Balance,
}

/// What a `TransactionBody` holds, as contracts speak of it.
pub ghost enum TransactionBodyView {
    SendMoney(SendMoneyView),
    Stake(StakeView),
    CreateAccount(CreateAccountView),
    DeployContract(DeployContractView),
    SwapKey(SwapKeyView),
    FunctionCall(FunctionCallView),
}

impl View for SendMoneyTransaction {
    type V = SendMoneyView;

    open spec fn view(&self) -> SendMoneyView {
        SendMoneyView {
            nonce: self.nonce,
            originator: self.originator@,
            receiver: self.receiver@,
            amount: self.amount,
        }
    }
}

impl View for StakeTransaction {
    type V = StakeView;

    open spec fn view(&self) -> StakeView {
        StakeView { nonce: self.nonce, originator: self.originator@, amount: self.amount }
    }
}

impl View for CreateAccountTransaction {
    type V = CreateAccountView;

    open spec fn view(&self) -> CreateAccountView {
        CreateAccountView {
            nonce: self.nonce,
            originator: self.originator@,
            new_account_id: self.new_account_id@,
            amount: self.amount,
            public_key: self.public_key@,
        }
    }
}

impl View for DeployContractTransaction {
    type V = DeployContractView;

    open spec fn view(&self) -> DeployContractView {
        DeployContractView {
            nonce: self.nonce,
            originator: self.originator@,
            contract_id: self.contract_id@,
            public_key: self.public_key@,
            wasm_byte_array: self.wasm_byte_array@,
        }
    }
}

impl View for SwapKeyTransaction {
    type V = SwapKeyView;

    open spec fn view(&self) -> SwapKeyView {
        SwapKeyView {
            nonce: self.nonce,
            originator: self.originator@,
            cur_key: self.cur_key@,
            new_key: self.new_key@,
        }
    }
}

impl View for FunctionCallTransaction {
    type V = FunctionCallView;

    open spec fn view(&self) -> FunctionCallView {
        FunctionCallView {
            nonce: self.nonce,
            originator: self.originator@,
            contract_id: self.contract_id@,
            method_name: self.method_name@,
            args: self.args@,
            amount: self.amount,
        }
    }
}

impl View for TransactionBody {
    type V = TransactionBodyView;

    open spec fn view(&self) -> TransactionBodyView {
        match self {
            TransactionBody::SendMoney(t) => TransactionBodyView::SendMoney(t@),
            TransactionBody::Stake(t) => TransactionBodyView::Stake(t@),
            TransactionBody::CreateAccount(t) => TransactionBodyView::CreateAccount(t@),
            TransactionBody::DeployContract(t) => TransactionBodyView::DeployContract(t@),
            TransactionBody::SwapKey(t) => TransactionBodyView::SwapKey(t@),
            TransactionBody::FunctionCall(t) => TransactionBodyView::FunctionCall(t@),
        }
    }
}

impl TransactionBodyView {
    /// The account that sent the transaction.
    pub open spec fn originator(self) -> Seq<char> {
        match self {
            TransactionBodyView::SendMoney(t) => t.originator,
            TransactionBodyView::Stake(t) => t.originator,
            TransactionBodyView::CreateAccount(t) => t.originator,
            TransactionBodyView::DeployContract(t) => t.originator,
            TransactionBodyView::SwapKey(t) => t.originator,
            TransactionBodyView::FunctionCall(t) => t.originator,
        }
    }

    /// The nonce of the transaction.
    pub open spec fn nonce(self) -> u64 {
        match self {
            TransactionBodyView::SendMoney(t) => t.nonce,
            TransactionBodyView::Stake(t) => t.nonce,
            TransactionBodyView::CreateAccount(t) => t.nonce,
            TransactionBodyView::DeployContract(t) => t.nonce,
            TransactionBodyView::SwapKey(t) => t.nonce,
            TransactionBodyView::FunctionCall(t) => t.nonce,
        }
    }

    /// The account that the transaction addresses, where it addresses one:
    /// its mana is charged to the originator's bucket for that account first.
    pub open spec fn contract_id(self) -> Option<Seq<char>> {
        match self {
            TransactionBodyView::SendMoney(t) => Some(t.receiver),
            TransactionBodyView::Stake(t) => None,
            TransactionBodyView::CreateAccount(t) => None,
            TransactionBodyView::DeployContract(t) => Some(t.contract_id),
            TransactionBodyView::SwapKey(t) => None,
            TransactionBodyView::FunctionCall(t) => Some(t.contract_id),
        }
    }

    /// The mana that the transaction costs: one unit.
    pub open spec fn mana(self) -> Mana {
        1
    }

    /// The bytes over which the hash of the transaction is taken: a tag for
    /// the kind, then the fields in their order.
    pub open spec fn encoding(self) -> Seq<u8> {
        match self {
            TransactionBodyView::SendMoney(t) => seq![0u8] + enc_u64(t.nonce) + enc_string(
                t.originator,
            ) + enc_string(t.receiver) + enc_u64(t.amount),
            TransactionBodyView::Stake(t) => seq![1u8] + enc_u64(t.nonce) + enc_string(
                t.originator,
            ) + enc_u64(t.amount),
            TransactionBodyView::CreateAccount(t) => seq![2u8] + enc_u64(t.nonce) + enc_string(
                t.originator,
            ) + enc_string(t.new_account_id) + enc_u64(t.amount) + enc_bytes(t.public_key),
            TransactionBodyView::DeployContract(t) => seq![3u8] + enc_u64(t.nonce) + enc_string(
                t.originator,
            ) + enc_string(t.contract_id) + enc_bytes(t.public_key) + enc_bytes(
                t.wasm_byte_array,
            ),
            TransactionBodyView::SwapKey(t) => seq![4u8] + enc_u64(t.nonce) + enc_string(
                t.originator,
            ) + enc_bytes(t.cur_key) + enc_bytes(t.new_key),
            TransactionBodyView::FunctionCall(t) => seq![5u8] + enc_u64(t.nonce) + enc_string(
                t.originator,
            ) + enc_string(t.contract_id) + enc_bytes(t.method_name) + enc_bytes(t.args)
                + enc_u64(t.amount),
        }
    }

    /// The hash of the transaction.
    pub open spec fn hash(self) -> Seq<u8> {
        spec_hash(self.encoding())
    }
}

impl TransactionBody {
    /// The account that sent the transaction.
    pub fn get_originator(&self) -> (r: AccountId)
        ensures
            r@ == self@.originator(),
    {
        match self {
            TransactionBody::SendMoney(t) => t.originator.clone(),
            TransactionBody::Stake(t) => t.originator.clone(),
            TransactionBody::CreateAccount(t) => t.originator.clone(),
            TransactionBody::DeployContract(t) => t.originator.clone(),
            TransactionBody::SwapKey(t) => t.originator.clone(),
            TransactionBody::FunctionCall(t) => t.originator.clone(),
        }
    }

    /// The nonce of the transaction.
    pub fn get_nonce(&self) -> (r: u64)
        ensures
            r == self@.nonce(),
    {
        match self {
            TransactionBody::SendMoney(t) => t.nonce,
            TransactionBody::Stake(t) => t.nonce,
            TransactionBody::CreateAccount(t) => t.nonce,
            TransactionBody::DeployContract(t) => t.nonce,
            TransactionBody::SwapKey(t) => t.nonce,
            TransactionBody::FunctionCall(t) => t.nonce,
        }
    }

    /// The account that the transaction addresses, where it addresses one.
    pub fn get_contract_id(&self) -> (r: Option<AccountId>)
        ensures
            crate::bytes::opt_chars(r) == self@.contract_id(),
    {
        match self {
            TransactionBody::SendMoney(t) => Some(t.receiver.clone()),
            TransactionBody::Stake(_) => None,
            TransactionBody::CreateAccount(_) => None,
            TransactionBody::DeployContract(t) => Some(t.contract_id.clone()),
            TransactionBody::SwapKey(_) => None,
            TransactionBody::FunctionCall(t) => Some(t.contract_id.clone()),
        }
    }

    /// The mana that the transaction costs.
    pub fn get_mana(&self) -> (r: Mana)
        ensures
            r == self@.mana(),
    {
        1
    }

    /// The bytes over which the hash of the transaction is taken.
    pub fn encode(&self) -> (bytes: Vec<u8>)
        ensures
            bytes@ == self@.encoding(),
    {
        let mut out: Vec<u8> = Vec::new();
        match self {
            TransactionBody::SendMoney(t) => {
                out.push(0u8);
                write_u64(&mut out, t.nonce);
                write_string(&mut out, &t.originator);
                write_string(&mut out, &t.receiver);
                write_u64(&mut out, t.amount);
            },
            TransactionBody::Stake(t) => {
                out.push(1u8);
                write_u64(&mut out, t.nonce);
                write_string(&mut out, &t.originator);
                write_u64(&mut out, t.amount);
            },
            TransactionBody::CreateAccount(t) => {
                out.push(2u8);
                write_u64(&mut out, t.nonce);
                write_string(&mut out, &t.originator);
                write_string(&mut out, &t.new_account_id);
                write_u64(&mut out, t.amount);
                write_bytes(&mut out, t.public_key.as_slice());
            },
            TransactionBody::DeployContract(t) => {
                out.push(3u8);
                write_u64(&mut out, t.nonce);
                write_string(&mut out, &t.originator);
                write_string(&mut out, &t.contract_id);
                write_bytes(&mut out, t.public_key.as_slice());
                write_bytes(&mut out, t.wasm_byte_array.as_slice());
            },
            TransactionBody::SwapKey(t) => {
                out.push(4u8);
                write_u64(&mut out, t.nonce);
                write_string(&mut out, &t.originator);
                write_bytes(&mut out, t.cur_key.as_slice());
                write_bytes(&mut out, t.new_key.as_slice());
            },
            TransactionBody::FunctionCall(t) => {
                out.push(5u8);
                write_u64(&mut out, t.nonce);
                write_string(&mut out, &t.originator);
                write_string(&mut out, &t.contract_id);
                write_bytes(&mut out, t.method_name.as_slice());
                write_bytes(&mut out, t.args.as_slice());
                write_u64(&mut out, t.amount);
            },
        }
        assert(out@ =~= self@.encoding());
        out
    }
}

/// A transaction with the signature of its originator.
#[derive(Clone, Debug, PartialEq, Eq)]
pub struct SignedTransaction {
    pub signature: Vec<u8>,
    pub body: TransactionBody,
}

/// What a `SignedTransaction` holds, as contracts speak of it.
pub ghost struct SignedTransactionView {
    pub signature: Seq<u8>,
    pub body: TransactionBodyView,
}

impl View for SignedTransaction {
    type V = SignedTransactionView;

    open spec fn view(&self) -> SignedTransactionView {
        SignedTransactionView { signature: self.signature@, body: self.body@ }
    }
}

/// Number of bytes in a signature.
pub const SIGNATURE_LEN: usize = 64;

/// The signature of 64 zero bytes.
pub fn default_signature() -> (r: Vec<u8>)
    ensures
        r@ == Seq::new(SIGNATURE_LEN as nat, |i: int| 0u8),
{
    let mut r: Vec<u8> = Vec::new();
    let mut i: usize = 0;
    while i < SIGNATURE_LEN
        invariant
            i <= SIGNATURE_LEN,
            r@.len() == i,
            forall|k: int| 0 <= k < i ==> r@[k] == 0u8,
        decreases SIGNATURE_LEN - i,
    {
        r.push(0u8);
        i += 1;
    }
    assert(r@ =~= Seq::new(SIGNATURE_LEN as nat, |i: int| 0u8));
    r
}

impl SignedTransaction {
    /// A transaction with its signature.
    pub fn new(signature: Vec<u8>, body: TransactionBody) -> (r: Self)
        ensures
            r@ == (SignedTransactionView { signature: signature@, body: body@ }),
    {
        SignedTransaction { signature, body }
    }

    /// The hash of the transaction: the digest of its encoded body.
    pub fn get_hash(&self) -> (r: CryptoHash)
        ensures
            r@ == self@.body.hash(),
            r@.len() == HASH_LEN,
    {
        hash(self.body.encode().as_slice())
    }
}

} // verus!
