//! Why an input failed, and the message that is logged for it.
use crate::types::{AccountId, Balance};
use vstd::prelude::*;

verus! {

/// The reasons for which an input fails.
#[derive(Clone, Copy, Debug, PartialEq, Eq, Structural)]
pub enum ErrorKind {
    /// The originator of a transaction is not a valid account id.
    InvalidOriginator,
    /// The originator of a transaction has no account.
    SenderNotFound,
    /// The nonce of a transaction is not above that of its originator.
    NonceTooSmall,
    /// The contract of a transaction is not a valid account id.
    InvalidContractId,
    /// No bucket of the originator holds the mana that the transaction costs.
    NotEnoughMana,
    /// A transfer of nothing.
    ZeroAmount,
    /// A transfer of more than the sender has.
    SendOverBalance,
    /// A stake of more than the sender has.
    StakeOverBalance,
    /// A stake by an account without a public key.
    NoPublicKey,
    /// The id of an account to create is not valid.
    InvalidAccountId,
    /// An account created with more than its creator has.
    CreateOverBalance,
    /// Bytes that are no public key.
    BadPublicKey,
    /// The key to swap out is not among the account's keys.
    KeyNotFound,
    /// A call with more than the caller has.
    CallOverBalance,
    /// Arguments of a system method that cannot be read.
    BadArgs,
    /// A deployment under a key that the account does not hold.
    KeyNotAuthorized,
    /// The receiver of a receipt has no account.
    ReceiverNotFound,
    /// A call to an account without code.
    CodeNotFound,
    /// A callback on an account without code.
    NoContractCode,
    /// A result for a callback that is not in the state.
    CallbackNotFound,
    /// A result for a slot that the callback does not have.
    ResultIndexOutOfRange,
    /// The executor could not start the call.
    PreparationFailed,
    /// The executor started the call, which then failed.
    ExecutionFailed,
    /// The executor failed on a callback.
    CallbackExecutionFailed,
    /// The receipt that a call returned is awaited already.
    ReceiptHasCallback,
    /// The callback that a call returned is awaited already.
    CallbackHasCallback,
    /// A call returned a promise that cannot be awaited.
    NonCallbackPromise,
    /// A call returned a promise that it did not create.
    PromiseNotFound,
    /// A credit that the balance cannot hold.
    BalanceOverflow,
    /// Mana accounting for a bucket that is not in the state.
    TxStakeNotFound,
    /// An initial authority without an account.
    AuthorityNotFound,
    /// A genesis state for a database that holds a state already.
    DatabaseNotEmpty,
}

/// Why an input failed: the reason, the account or the detail that it is
/// about, and the amounts involved.
#[derive(Clone, Debug, PartialEq, Eq)]
pub struct RuntimeError {
    pub kind: ErrorKind,
    pub subject: String,
    /// The public key or the identifier that the error is about.
    pub data: Vec<u8>,
    pub requested: u64,
    pub staked: u64,
    pub available: u64,
}

/// What a `RuntimeError` holds, as contracts speak of it.
pub ghost struct RuntimeErrorView {
    pub kind: ErrorKind,
    pub subject: Seq<char>,
    pub data: Seq<u8>,
    pub requested: u64,
    pub staked: u64,
    pub available: u64,
}

impl View for RuntimeError {
    type V = RuntimeErrorView;

    open spec fn view(&self) -> RuntimeErrorView {
        RuntimeErrorView {
            kind: self.kind,
            subject: self.subject@,
            data: self.data@,
            requested: self.requested,
            staked: self.staked,
            available: self.available,
        }
    }
}

/// An error that is about nothing in particular.
pub open spec fn spec_plain(kind: ErrorKind) -> RuntimeErrorView {
    RuntimeErrorView {
        kind,
        subject: Seq::empty(),
        data: Seq::empty(),
        requested: 0,
        staked: 0,
        available: 0,
    }
}

/// An error about an account, or with a detail.
pub open spec fn spec_about(kind: ErrorKind, subject: Seq<char>) -> RuntimeErrorView {
    RuntimeErrorView { kind, subject, data: Seq::empty(), requested: 0, staked: 0, available: 0 }
}

/// An error about a public key of an account, or about an identifier.
pub open spec fn spec_with_bytes(kind: ErrorKind, subject: Seq<char>, data: Seq<u8>) -> RuntimeErrorView {
    RuntimeErrorView { kind, subject, data, requested: 0, staked: 0, available: 0 }
}

/// An error about an account that asked for more than it has.
pub open spec fn spec_short(
    kind: ErrorKind,
    subject: Seq<char>,
    requested: u64,
    staked: u64,
    available: u64,
) -> RuntimeErrorView {
    RuntimeErrorView { kind, subject, data: Seq::empty(), requested, staked, available }
}

/// The decimal digit `d`.
pub open spec fn spec_digit(d: int) -> char {
    if d == 0 {
        '0'
    } else if d == 1 {
        '1'
    } else if d == 2 {
        '2'
    } else if d == 3 {
        '3'
    } else if d == 4 {
        '4'
    } else if d == 5 {
        '5'
    } else if d == 6 {
        '6'
    } else if d == 7 {
        '7'
    } else if d == 8 {
        '8'
    } else {
        '9'
    }
}

/// `n` in decimal digits.
pub open spec fn spec_decimal(n: nat) -> Seq<char>
    decreases n,
{
    if n < 10 {
        seq![spec_digit(n as int)]
    } else {
        spec_decimal(n / 10).push(spec_digit((n % 10) as int))
    }
}

fn digit(d: u64) -> (s: &'static str)
    requires
        d < 10,
    ensures
        s@ == seq![spec_digit(d as int)],
{
    proof {
        reveal_strlit("0");
        reveal_strlit("1");
        reveal_strlit("2");
        reveal_strlit("3");
        reveal_strlit("4");
        reveal_strlit("5");
        reveal_strlit("6");
        reveal_strlit("7");
        reveal_strlit("8");
        reveal_strlit("9");
    }
    let s = if d == 0 {
        "0"
    } else if d == 1 {
        "1"
    } else if d == 2 {
        "2"
    } else if d == 3 {
        "3"
    } else if d == 4 {
        "4"
    } else if d == 5 {
        "5"
    } else if d == 6 {
        "6"
    } else if d == 7 {
        "7"
    } else if d == 8 {
        "8"
    } else {
        "9"
    };
    assert(s@ =~= seq![spec_digit(d as int)]);
    s
}

/// Appends `n` in decimal digits to `out`.
pub fn push_decimal(out: &mut String, n: u64)
    ensures
        final(out)@ == old(out)@ + spec_decimal(n as nat),
    decreases n,
{
    if n >= 10 {
        push_decimal(out, n / 10);
    }
    out.append(digit(n % 10));
    assert(out@ =~= old(out)@ + spec_decimal(n as nat));
}

/// The bytes in decimal, each but the first after a comma and a space.
pub open spec fn spec_byte_items(bytes: Seq<u8>) -> Seq<char>
    decreases bytes.len(),
{
    if bytes.len() == 0 {
        Seq::empty()
    } else if bytes.len() == 1 {
        spec_decimal(bytes[0] as nat)
    } else {
        spec_byte_items(bytes.drop_last()) + ", "@ + spec_decimal(bytes.last() as nat)
    }
}

/// The bytes as a list: in decimal, in square brackets.
pub open spec fn spec_byte_list(bytes: Seq<u8>) -> Seq<char> {
    "["@ + spec_byte_items(bytes) + "]"@
}

/// Appends `bytes` as a list to `out`.
pub fn push_byte_list(out: &mut String, bytes: &[u8])
    ensures
        final(out)@ == old(out)@ + spec_byte_list(bytes@),
{
    out.append("[");
    let ghost start = out@;
    let mut i: usize = 0;
    assert(bytes@.take(0) =~= Seq::empty());
    assert(out@ =~= start + spec_byte_items(bytes@.take(0)));
    while i < bytes.len()
        invariant
            i <= bytes@.len(),
            out@ == start + spec_byte_items(bytes@.take(i as int)),
        decreases bytes@.len() - i,
    {
        let ghost before = out@;
        let ghost done = bytes@.take(i as int);
        let ghost next = bytes@.take(i + 1);
        proof {
            assert(next.drop_last() =~= done);
            assert(next.last() == bytes@[i as int]);
        }
        if i > 0 {
            out.append(", ");
        }
        push_decimal(out, bytes[i] as u64);
        proof {
            if i == 0 {
                assert(done =~= Seq::empty());
                assert(out@ =~= start + spec_byte_items(next));
            } else {
                assert(out@ =~= start + spec_byte_items(next));
            }
        }
        i += 1;
    }
    assert(bytes@.take(bytes@.len() as int) =~= bytes@);
    out.append("]");
    assert(out@ =~= old(out)@ + spec_byte_list(bytes@));
}

/// The message of an error.
pub open spec fn spec_message(e: RuntimeErrorView) -> Seq<char> {
    match e.kind {
        ErrorKind::InvalidOriginator => "Invalid originator account_id"@,
        ErrorKind::SenderNotFound => "sender "@ + e.subject + " does not exist"@,
        ErrorKind::NonceTooSmall => "Transaction nonce "@ + spec_decimal(e.requested as nat)
            + " must be larger than sender nonce "@ + spec_decimal(e.available as nat),
        ErrorKind::InvalidContractId => "Invalid contract_id"@,
        ErrorKind::NotEnoughMana => "sender "@ + e.subject + " does not have enough mana "@
            + spec_decimal(e.requested as nat),
        ErrorKind::ZeroAmount => "Sending 0 amount of money"@,
        ErrorKind::SendOverBalance => spec_short_message(e, " tries to send "@),
        ErrorKind::StakeOverBalance => spec_short_message(e, " tries to stake "@),
        ErrorKind::NoPublicKey => "Account "@ + e.subject + " has no public key to stake with"@,
        ErrorKind::InvalidAccountId => "Account "@ + e.subject + " does not match requirements"@,
        ErrorKind::CreateOverBalance => "Account "@ + e.subject
            + " tries to create new account with "@ + spec_decimal(e.requested as nat)
            + ", but only has "@ + spec_decimal(e.available as nat),
        ErrorKind::BadPublicKey => "cannot decode public key"@,
        ErrorKind::KeyNotFound => "Account "@ + e.subject + " does not have public key "@
            + spec_byte_list(e.data),
        ErrorKind::CallOverBalance => spec_short_message(
            e,
            " tries to call some contract with the amount "@,
        ),
        ErrorKind::BadArgs => "cannot decode args"@,
        ErrorKind::KeyNotAuthorized => "Account "@ + e.subject + " does not contain key "@
            + spec_byte_list(e.data),
        ErrorKind::ReceiverNotFound => "receiver "@ + e.subject + " does not exist"@,
        ErrorKind::CodeNotFound => "cannot find contract code for account "@ + e.subject,
        ErrorKind::NoContractCode => "account "@ + e.subject + " does not have contract code"@,
        ErrorKind::CallbackNotFound => "callback id: "@ + spec_byte_list(e.data) + " not found"@,
        ErrorKind::ResultIndexOutOfRange => "callback has no slot "@ + spec_decimal(
            e.requested as nat,
        ),
        ErrorKind::PreparationFailed => "wasm async call preparation failed with error: "@
            + e.subject,
        ErrorKind::ExecutionFailed => "wasm async call execution failed with error: "@ + e.subject,
        ErrorKind::CallbackExecutionFailed => "wasm callback execution failed with error: "@
            + e.subject,
        ErrorKind::ReceiptHasCallback => "receipt already has callback"@,
        ErrorKind::CallbackHasCallback => "callback already has callback"@,
        ErrorKind::NonCallbackPromise => "return data is a non-callback promise"@,
        ErrorKind::PromiseNotFound => "returned promise does not exist"@,
        ErrorKind::BalanceOverflow => "Account "@ + e.subject + " cannot hold the amount"@,
        ErrorKind::TxStakeNotFound => "TX stake doesn't exist when mana accounting arrived"@,
        ErrorKind::AuthorityNotFound => "authority "@ + e.subject + " does not have an account"@,
        ErrorKind::DatabaseNotEmpty => "genesis state needs an empty database"@,
    }
}

/// The message of an account that asked for more than it has.
pub open spec fn spec_short_message(e: RuntimeErrorView, tries: Seq<char>) -> Seq<char> {
    "Account "@ + e.subject + tries + spec_decimal(e.requested as nat) + ", but has staked "@
        + spec_decimal(e.staked as nat) + " and only has "@ + spec_decimal(e.available as nat)
}

/// The log entry of a failed input.
pub open spec fn spec_failure_log(e: RuntimeErrorView) -> Seq<char> {
    "Runtime error: "@ + spec_message(e)
}

impl RuntimeError {
    /// An error that is about nothing in particular.
    pub fn plain(kind: ErrorKind) -> (r: Self)
        ensures
            r@ == spec_plain(kind),
    {
        RuntimeError {
            kind,
            subject: String::new(),
            data: Vec::new(),
            requested: 0,
            staked: 0,
            available: 0,
        }
    }

    /// An error about an account, or with a detail.
    pub fn about(kind: ErrorKind, subject: &String) -> (r: Self)
        ensures
            r@ == spec_about(kind, subject@),
    {
        RuntimeError {
            kind,
            subject: subject.clone(),
            data: Vec::new(),
            requested: 0,
            staked: 0,
            available: 0,
        }
    }

    /// An error about a public key of an account, or about an identifier.
    pub fn with_bytes(kind: ErrorKind, subject: &String, data: &[u8]) -> (r: Self)
        ensures
            r@ == spec_with_bytes(kind, subject@, data@),
    {
        let mut bytes: Vec<u8> = Vec::new();
        bytes.extend_from_slice(data);
        assert(bytes@ =~= data@);
        RuntimeError {
            kind,
            subject: subject.clone(),
            data: bytes,
            requested: 0,
            staked: 0,
            available: 0,
        }
    }

    /// An error about an account that asked for more than it has.
    pub fn short(kind: ErrorKind, subject: &AccountId, requested: u64, staked: Balance, available: Balance) -> (r: Self)
        ensures
            r@ == spec_short(kind, subject@, requested, staked, available),
    {
        RuntimeError { kind, subject: subject.clone(), data: Vec::new(), requested, staked, available }
    }

    fn short_message(&self, tries: &str) -> (m: String)
        ensures
            m@ == spec_short_message(self@, tries@),
    {
        let mut m = String::from_str("Account ");
        m.append(self.subject.as_str());
        m.append(tries);
        push_decimal(&mut m, self.requested);
        m.append(", but has staked ");
        push_decimal(&mut m, self.staked);
        m.append(" and only has ");
        push_decimal(&mut m, self.available);
        m
    }

    fn framed(&self, before: &str, after: &str) -> (m: String)
        ensures
            m@ == before@ + self.subject@ + after@,
    {
        let mut m = String::from_str(before);
        m.append(self.subject.as_str());
        m.append(after);
        m
    }

    /// The message of the error.
    pub fn message(&self) -> (m: String)
        ensures
            m@ == spec_message(self@),
    {
        match self.kind {
            ErrorKind::InvalidOriginator => String::from_str("Invalid originator account_id"),
            ErrorKind::SenderNotFound => self.framed("sender ", " does not exist"),
            ErrorKind::NonceTooSmall => {
                let mut m = String::from_str("Transaction nonce ");
                push_decimal(&mut m, self.requested);
                m.append(" must be larger than sender nonce ");
                push_decimal(&mut m, self.available);
                m
            },
            ErrorKind::InvalidContractId => String::from_str("Invalid contract_id"),
            ErrorKind::NotEnoughMana => {
                let mut m = self.framed("sender ", " does not have enough mana ");
                push_decimal(&mut m, self.requested);
                m
            },
            ErrorKind::ZeroAmount => String::from_str("Sending 0 amount of money"),
            ErrorKind::SendOverBalance => self.short_message(" tries to send "),
            ErrorKind::StakeOverBalance => self.short_message(" tries to stake "),
            ErrorKind::NoPublicKey => self.framed("Account ", " has no public key to stake with"),
            ErrorKind::InvalidAccountId => self.framed("Account ", " does not match requirements"),
            ErrorKind::CreateOverBalance => {
                let mut m = self.framed("Account ", " tries to create new account with ");
                push_decimal(&mut m, self.requested);
                m.append(", but only has ");
                push_decimal(&mut m, self.available);
                m
            },
            ErrorKind::BadPublicKey => String::from_str("cannot decode public key"),
            ErrorKind::KeyNotFound => {
                let mut m = self.framed("Account ", " does not have public key ");
                push_byte_list(&mut m, self.data.as_slice());
                m
            },
            ErrorKind::CallOverBalance => self.short_message(
                " tries to call some contract with the amount ",
            ),
            ErrorKind::BadArgs => String::from_str("cannot decode args"),
            ErrorKind::KeyNotAuthorized => {
                let mut m = self.framed("Account ", " does not contain key ");
                push_byte_list(&mut m, self.data.as_slice());
                m
            },
            ErrorKind::ReceiverNotFound => self.framed("receiver ", " does not exist"),
            ErrorKind::CodeNotFound => {
                let mut m = String::from_str("cannot find contract code for account ");
                m.append(self.subject.as_str());
                m
            },
            ErrorKind::NoContractCode => self.framed("account ", " does not have contract code"),
            ErrorKind::CallbackNotFound => {
                let mut m = String::from_str("callback id: ");
                push_byte_list(&mut m, self.data.as_slice());
                m.append(" not found");
                m
            },
            ErrorKind::ResultIndexOutOfRange => {
                let mut m = String::from_str("callback has no slot ");
                push_decimal(&mut m, self.requested);
                m
            },
            ErrorKind::PreparationFailed => {
                let mut m = String::from_str("wasm async call preparation failed with error: ");
                m.append(self.subject.as_str());
                m
            },
            ErrorKind::ExecutionFailed => {
                let mut m = String::from_str("wasm async call execution failed with error: ");
                m.append(self.subject.as_str());
                m
            },
            ErrorKind::CallbackExecutionFailed => {
                let mut m = String::from_str("wasm callback execution failed with error: ");
                m.append(self.subject.as_str());
                m
            },
            ErrorKind::ReceiptHasCallback => String::from_str("receipt already has callback"),
            ErrorKind::CallbackHasCallback => String::from_str("callback already has callback"),
            ErrorKind::NonCallbackPromise => String::from_str(
                "return data is a non-callback promise",
            ),
            ErrorKind::PromiseNotFound => String::from_str("returned promise does not exist"),
            ErrorKind::BalanceOverflow => self.framed("Account ", " cannot hold the amount"),
            ErrorKind::TxStakeNotFound => String::from_str(
                "TX stake doesn't exist when mana accounting arrived",
            ),
            ErrorKind::AuthorityNotFound => self.framed("authority ", " does not have an account"),
            ErrorKind::DatabaseNotEmpty => String::from_str("genesis state needs an empty database"),
        }
    }

    /// The log entry of an input that failed with this error.
    pub fn failure_log(&self) -> (m: String)
        ensures
            m@ == spec_failure_log(self@),
    {
        let mut m = String::from_str("Runtime error: ");
        m.append(self.message().as_str());
        m
    }
}

} // verus!
