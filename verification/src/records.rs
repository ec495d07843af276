//! The records kept in the state, their encoding, and typed access to them.
use crate::bytes::{bytes_list, opt_bytes};
use crate::codec::{
    advanced, bytes_list_encodable, dec_bytes, dec_bytes_list, dec_opt_bytes_list, dec_opt_string,
    dec_string, dec_u64, enc_bytes, enc_bytes_list, enc_opt_bytes_list, enc_opt_string, enc_string,
    enc_u64, lemma_bytes_list_roundtrip, lemma_bytes_roundtrip, lemma_opt_bytes_list_roundtrip,
    lemma_opt_string_roundtrip, lemma_string_roundtrip, lemma_u64_roundtrip,
    opt_bytes_list_encodable, read_bytes, read_bytes_list, read_opt_bytes_list, read_opt_string,
    read_string, read_u64, write_bytes, write_bytes_list, write_opt_bytes_list, write_opt_string,
    write_string, write_u64, Parsed,
};
use crate::keys::{
    account_id_to_bytes, callback_id_to_bytes, get_tx_stake_key, spec_account_key,
    spec_callback_key, spec_tx_stake_key, COL_ACCOUNT, COL_CODE,
};
use crate::state::{only_staged, stored, StateDbUpdate, StateMap};
use crate::tx_stakes::{
    decode_tx_stake, enc_tx_stake, encode_tx_stake, spec_decode_tx_stake, TxTotalStake,
};
use crate::types::{
    opt_info, AccountId, AccountingInfo, AccountingInfoView, Balance, Callback, CallbackInfo,
    CallbackInfoView, CallbackView, PublicKey,
};
use vstd::prelude::*;
use vstd::utf8::encode_utf8;

verus! {

// ---------------------------------------------------------------------------
// Accounts
// ---------------------------------------------------------------------------
/// Per account information stored in the state. `amount + staked` is the
/// total value of the account.
#[derive(Clone, Debug, PartialEq, Eq)]
pub struct Account {
    pub public_keys: Vec<PublicKey>,
    pub nonce: u64,
    pub amount: Balance,
    pub staked: Balance,
    pub code_hash: Vec<u8>,
}

/// What a `Account` holds, as contracts speak of it.
pub ghost struct AccountView {
    pub public_keys: Seq<Seq<u8>>,
    pub nonce: u64,
    pub amount: Balance,
    pub staked: Balance,
    pub code_hash: Seq<u8>,
}

impl View for Account {
    type V = AccountView;

    open spec fn view(&self) -> AccountView {
        AccountView {
            public_keys: bytes_list(self.public_keys@),
            nonce: self.nonce,
            amount: self.amount,
            staked: self.staked,
            code_hash: self.code_hash@,
        }
    }
}

/// The account that `Account::new` builds.
pub open spec fn spec_new_account(public_keys: Seq<Seq<u8>>, amount: Balance, code_hash: Seq<u8>) -> AccountView {
    AccountView { public_keys, nonce: 0, amount, staked: 0, code_hash }
}

impl Account {
    /// A fresh account: nonce 0 and nothing staked.
    pub fn new(public_keys: Vec<PublicKey>, amount: Balance, code_hash: Vec<u8>) -> (r: Self)
        ensures
            r@ == spec_new_account(bytes_list(public_keys@), amount, code_hash@),
    {
        Account { public_keys, nonce: 0, amount, staked: 0, code_hash }
    }
}

/// The encoding of an account.
pub open spec fn enc_account(a: AccountView) -> Seq<u8> {
    enc_bytes_list(a.public_keys) + enc_u64(a.nonce) + enc_u64(a.amount) + enc_u64(a.staked)
        + enc_bytes(a.code_hash)
}

/// Reads an account from the front of `s`: the value, and what follows it.
pub open spec fn dec_account(s: Seq<u8>) -> Parsed<AccountView> {
    match dec_bytes_list(s) {
        Some((public_keys, r1)) => match dec_u64(r1) {
            Some((nonce, r2)) => match dec_u64(r2) {
                Some((amount, r3)) => match dec_u64(r3) {
                    Some((staked, r4)) => match dec_bytes(r4) {
                        Some((code_hash, r5)) => Some(
                            (AccountView { public_keys, nonce, amount, staked, code_hash }, r5),
                        ),
                        None => None,
                    },
                    None => None,
                },
                None => None,
            },
            None => None,
        },
        None => None,
    }
}

/// The account that `bytes` encode, if they encode one and nothing more.
pub open spec fn spec_decode_account(bytes: Seq<u8>) -> Option<AccountView> {
    match dec_account(bytes) {
        Some((a, rest)) => if rest.len() == 0 {
            Some(a)
        } else {
            None
        },
        None => None,
    }
}

/// The lengths in the account fit the length fields of the encoding.
pub open spec fn account_encodable(a: AccountView) -> bool {
    &&& bytes_list_encodable(a.public_keys)
    &&& a.code_hash.len() <= u64::MAX
}

/// Decoding an account gives back what was encoded.
pub proof fn lemma_account_roundtrip(a: AccountView)
    requires
        account_encodable(a),
    ensures
        spec_decode_account(enc_account(a)) == Some(a),
{
    let e = Seq::<u8>::empty();
    let s4 = enc_bytes(a.code_hash) + e;
    let s3 = enc_u64(a.staked) + s4;
    let s2 = enc_u64(a.amount) + s3;
    let s1 = enc_u64(a.nonce) + s2;
    lemma_bytes_list_roundtrip(a.public_keys, s1);
    lemma_u64_roundtrip(a.nonce, s2);
    lemma_u64_roundtrip(a.amount, s3);
    lemma_u64_roundtrip(a.staked, s4);
    lemma_bytes_roundtrip(a.code_hash, e);
    assert(enc_account(a) =~= enc_bytes_list(a.public_keys) + s1);
}

impl Account {
    /// An account in memory can always be encoded.
    pub proof fn lemma_encodable(&self)
        ensures
            account_encodable(self@),
    {
        let keys = self@.public_keys;
        assert forall|i: int| 0 <= i < keys.len() implies crate::codec::bytes_encodable(
            #[trigger] keys[i],
        ) by {
            assert(keys[i] == self.public_keys@[i]@);
            assert(self.public_keys@[i]@.len() == self.public_keys@[i].len());
        }
        assert(self.public_keys@.len() == self.public_keys.len());
        assert(self.code_hash@.len() == self.code_hash.len());
    }

    /// An account in memory is read back from its encoding as it is.
    pub proof fn lemma_roundtrip(&self)
        ensures
            spec_decode_account(enc_account(self@)) == Some(self@),
    {
        self.lemma_encodable();
        lemma_account_roundtrip(self@);
    }
}

/// The encoding of an account.
pub fn encode_account(a: &Account) -> (bytes: Vec<u8>)
    ensures
        bytes@ == enc_account(a@),
{
    let mut out: Vec<u8> = Vec::new();
    write_bytes_list(&mut out, &a.public_keys);
    write_u64(&mut out, a.nonce);
    write_u64(&mut out, a.amount);
    write_u64(&mut out, a.staked);
    write_bytes(&mut out, a.code_hash.as_slice());
    assert(out@ =~= enc_account(a@));
    out
}

/// Decodes an account: `None` where the bytes are not the encoding of one.
pub fn decode_account(bytes: &[u8]) -> (r: Option<Account>)
    ensures
        r is Some == spec_decode_account(bytes@) is Some,
        r is Some ==> r.unwrap()@ == spec_decode_account(bytes@).unwrap(),
{
    assert(bytes@.skip(0) =~= bytes@);
    let (public_keys, pos1) = match read_bytes_list(bytes, 0) {
        Some(x) => x,
        None => {
            return None;
        },
    };
    let (nonce, pos2) = match read_u64(bytes, pos1) {
        Some(x) => x,
        None => {
            return None;
        },
    };
    let (amount, pos3) = match read_u64(bytes, pos2) {
        Some(x) => x,
        None => {
            return None;
        },
    };
    let (staked, pos4) = match read_u64(bytes, pos3) {
        Some(x) => x,
        None => {
            return None;
        },
    };
    let (code_hash, pos5) = match read_bytes(bytes, pos4) {
        Some(x) => x,
        None => {
            return None;
        },
    };
    if pos5 != bytes.len() {
        return None;
    }
    Some(Account { public_keys, nonce, amount, staked, code_hash })
}

// ---------------------------------------------------------------------------
// Callbacks
// ---------------------------------------------------------------------------
/// The encoding of an accounting info.
pub open spec fn enc_accounting_info(a: AccountingInfoView) -> Seq<u8> {
    enc_string(a.originator) + enc_opt_string(a.contract_id)
}

/// Reads an accounting info from the front of `s`: the value, and what follows it.
pub open spec fn dec_accounting_info(s: Seq<u8>) -> Parsed<AccountingInfoView> {
    match dec_string(s) {
        Some((originator, r1)) => match dec_opt_string(r1) {
            Some((contract_id, r2)) => Some((AccountingInfoView { originator, contract_id }, r2)),
            None => None,
        },
        None => None,
    }
}

/// The lengths in the value fit the length fields of the encoding.
pub open spec fn accounting_info_encodable(a: AccountingInfoView) -> bool {
    &&& encode_utf8(a.originator).len() <= u64::MAX
    &&& a.contract_id is Some ==> encode_utf8(a.contract_id.unwrap()).len() <= u64::MAX
}

/// Decoding the encoding of an accounting info gives it back, with what followed it.
pub proof fn lemma_accounting_info_roundtrip(a: AccountingInfoView, rest: Seq<u8>)
    requires
        accounting_info_encodable(a),
    ensures
        dec_accounting_info(enc_accounting_info(a) + rest) == Some((a, rest)),
{
    let s1 = enc_opt_string(a.contract_id) + rest;
    lemma_string_roundtrip(a.originator, s1);
    lemma_opt_string_roundtrip(a.contract_id, rest);
    assert(enc_accounting_info(a) + rest =~= enc_string(a.originator) + s1);
}

/// Appends the encoding of an accounting info to `out`.
pub fn write_accounting_info(out: &mut Vec<u8>, a: &AccountingInfo)
    ensures
        final(out)@ == old(out)@ + enc_accounting_info(a@),
{
    write_string(out, &a.originator);
    write_opt_string(out, &a.contract_id);
    assert(out@ =~= old(out)@ + enc_accounting_info(a@));
}

/// Reads an accounting info from `buf` at `pos`: the value, and where the next one starts.
pub fn read_accounting_info(buf: &[u8], pos: usize) -> (r: Option<(AccountingInfo, usize)>)
    ensures
        pos > buf@.len() ==> r is None,
        pos <= buf@.len() ==> match dec_accounting_info(buf@.skip(pos as int)) {
            Some((v, rest)) => r is Some && r.unwrap().0@ == v && advanced(
                buf@,
                pos,
                r.unwrap().1,
                rest,
            ),
            None => r is None,
        },
{
    if pos > buf.len() {
        return None;
    }
    let (originator, pos1) = match read_string(buf, pos) {
        Some(x) => x,
        None => {
            return None;
        },
    };
    let (contract_id, pos2) = match read_opt_string(buf, pos1) {
        Some(x) => x,
        None => {
            return None;
        },
    };
    Some((AccountingInfo { originator, contract_id }, pos2))
}

/// The encoding of a callback target.
pub open spec fn enc_callback_info(c: CallbackInfoView) -> Seq<u8> {
    enc_bytes(c.id) + enc_u64(c.result_index) + enc_string(c.receiver)
}

/// Reads a callback target from the front of `s`: the value, and what follows it.
pub open spec fn dec_callback_info(s: Seq<u8>) -> Parsed<CallbackInfoView> {
    match dec_bytes(s) {
        Some((id, r1)) => match dec_u64(r1) {
            Some((result_index, r2)) => match dec_string(r2) {
                Some((receiver, r3)) => Some((CallbackInfoView { id, result_index, receiver }, r3)),
                None => None,
            },
            None => None,
        },
        None => None,
    }
}

/// The lengths in the value fit the length fields of the encoding.
pub open spec fn callback_info_encodable(c: CallbackInfoView) -> bool {
    &&& c.id.len() <= u64::MAX
    &&& encode_utf8(c.receiver).len() <= u64::MAX
}

/// Decoding the encoding of a callback target gives it back, with what followed it.
pub proof fn lemma_callback_info_roundtrip(c: CallbackInfoView, rest: Seq<u8>)
    requires
        callback_info_encodable(c),
    ensures
        dec_callback_info(enc_callback_info(c) + rest) == Some((c, rest)),
{
    let s2 = enc_string(c.receiver) + rest;
    let s1 = enc_u64(c.result_index) + s2;
    lemma_bytes_roundtrip(c.id, s1);
    lemma_u64_roundtrip(c.result_index, s2);
    lemma_string_roundtrip(c.receiver, rest);
    assert(enc_callback_info(c) + rest =~= enc_bytes(c.id) + s1);
}

/// Appends the encoding of a callback target to `out`.
pub fn write_callback_info(out: &mut Vec<u8>, c: &CallbackInfo)
    ensures
        final(out)@ == old(out)@ + enc_callback_info(c@),
{
    write_bytes(out, c.id.as_slice());
    write_u64(out, c.result_index);
    write_string(out, &c.receiver);
    assert(out@ =~= old(out)@ + enc_callback_info(c@));
}

/// Reads a callback target from `buf` at `pos`: the value, and where the next one starts.
pub fn read_callback_info(buf: &[u8], pos: usize) -> (r: Option<(CallbackInfo, usize)>)
    ensures
        pos > buf@.len() ==> r is None,
        pos <= buf@.len() ==> match dec_callback_info(buf@.skip(pos as int)) {
            Some((v, rest)) => r is Some && r.unwrap().0@ == v && advanced(
                buf@,
                pos,
                r.unwrap().1,
                rest,
            ),
            None => r is None,
        },
{
    if pos > buf.len() {
        return None;
    }
    let (id, pos1) = match read_bytes(buf, pos) {
        Some(x) => x,
        None => {
            return None;
        },
    };
    let (result_index, pos2) = match read_u64(buf, pos1) {
        Some(x) => x,
        None => {
            return None;
        },
    };
    let (receiver, pos3) = match read_string(buf, pos2) {
        Some(x) => x,
        None => {
            return None;
        },
    };
    Some((CallbackInfo { id, result_index, receiver }, pos3))
}

/// The encoding of an optional callback target.
pub open spec fn enc_opt_callback_info(o: Option<CallbackInfoView>) -> Seq<u8> {
    match o {
        Some(c) => seq![1u8] + enc_callback_info(c),
        None => seq![0u8],
    }
}

/// Reads an optional callback target from the front of `s`: the value, and what follows it.
pub open spec fn dec_opt_callback_info(s: Seq<u8>) -> Parsed<Option<CallbackInfoView>> {
    if s.len() == 0 {
        None
    } else if s[0] == 0 {
        Some((None, s.skip(1)))
    } else if s[0] == 1 {
        match dec_callback_info(s.skip(1)) {
            Some((c, rest)) => Some((Some(c), rest)),
            None => None,
        }
    } else {
        None
    }
}

/// Decoding the encoding of an optional callback target gives it back, with what followed it.
pub proof fn lemma_opt_callback_info_roundtrip(o: Option<CallbackInfoView>, rest: Seq<u8>)
    requires
        o is Some ==> callback_info_encodable(o.unwrap()),
    ensures
        dec_opt_callback_info(enc_opt_callback_info(o) + rest) == Some((o, rest)),
{
    let s = enc_opt_callback_info(o) + rest;
    match o {
        Some(c) => {
            lemma_callback_info_roundtrip(c, rest);
            assert(s.skip(1) =~= enc_callback_info(c) + rest);
        },
        None => {
            assert(s.skip(1) =~= rest);
        },
    }
}

/// Appends the encoding of an optional callback target to `out`.
pub fn write_opt_callback_info(out: &mut Vec<u8>, o: &Option<CallbackInfo>)
    ensures
        final(out)@ == old(out)@ + enc_opt_callback_info(opt_info(*o)),
{
    match o {
        Some(c) => {
            out.push(1u8);
            write_callback_info(out, c);
            assert(out@ =~= old(out)@ + enc_opt_callback_info(Some(c@)));
        },
        None => {
            out.push(0u8);
            assert(out@ =~= old(out)@ + enc_opt_callback_info(None));
        },
    }
}

/// Reads an optional callback target from `buf` at `pos`: the value, and where the next one starts.
pub fn read_opt_callback_info(buf: &[u8], pos: usize) -> (r: Option<(Option<CallbackInfo>, usize)>)
    ensures
        pos > buf@.len() ==> r is None,
        pos <= buf@.len() ==> match dec_opt_callback_info(buf@.skip(pos as int)) {
            Some((v, rest)) => r is Some && opt_info(r.unwrap().0) == v && advanced(
                buf@,
                pos,
                r.unwrap().1,
                rest,
            ),
            None => r is None,
        },
{
    if pos > buf.len() {
        return None;
    }
    if pos >= buf.len() {
        return None;
    }
    let tag = buf[pos];
    proof {
        assert(buf@.skip(pos as int).skip(1) =~= buf@.skip(pos + 1));
    }
    if tag == 0 {
        Some((None, pos + 1))
    } else if tag == 1 {
        match read_callback_info(buf, pos + 1) {
            None => None,
            Some((c, next)) => Some((Some(c), next)),
        }
    } else {
        None
    }
}

/// The encoding of a callback.
pub open spec fn enc_callback(c: CallbackView) -> Seq<u8> {
    enc_bytes(c.method_name) + enc_bytes(c.args) + enc_opt_bytes_list(c.results) + enc_u64(
        c.mana as u64,
    ) + enc_opt_callback_info(c.callback) + enc_u64(c.result_counter) + enc_accounting_info(
        c.accounting_info,
    )
}

/// Reads a callback from the front of `s`: the value, and what follows it.
pub open spec fn dec_callback(s: Seq<u8>) -> Parsed<CallbackView> {
    match dec_bytes(s) {
        Some((method_name, r1)) => match dec_bytes(r1) {
            Some((args, r2)) => match dec_opt_bytes_list(r2) {
                Some((results, r3)) => match dec_u64(r3) {
                    Some((mana, r4)) => if mana > u32::MAX {
                        None
                    } else {
                        match dec_opt_callback_info(r4) {
                            Some((callback, r5)) => match dec_u64(r5) {
                                Some((result_counter, r6)) => match dec_accounting_info(r6) {
                                    Some((accounting_info, r7)) => Some(
                                        (
                                            CallbackView {
                                                method_name,
                                                args,
                                                results,
                                                mana: mana as u32,
                                                callback,
                                                result_counter,
                                                accounting_info,
                                            },
                                            r7,
                                        ),
                                    ),
                                    None => None,
                                },
                                None => None,
                            },
                            None => None,
                        }
                    },
                    None => None,
                },
                None => None,
            },
            None => None,
        },
        None => None,
    }
}

/// The callback that `bytes` encode, if they encode one and nothing more.
pub open spec fn spec_decode_callback(bytes: Seq<u8>) -> Option<CallbackView> {
    match dec_callback(bytes) {
        Some((c, rest)) => if rest.len() == 0 {
            Some(c)
        } else {
            None
        },
        None => None,
    }
}

/// The lengths in the callback fit the length fields of the encoding.
pub open spec fn callback_encodable(c: CallbackView) -> bool {
    &&& c.method_name.len() <= u64::MAX
    &&& c.args.len() <= u64::MAX
    &&& opt_bytes_list_encodable(c.results)
    &&& c.callback is Some ==> callback_info_encodable(c.callback.unwrap())
    &&& accounting_info_encodable(c.accounting_info)
}

/// Decoding a callback gives back what was encoded.
pub proof fn lemma_callback_roundtrip(c: CallbackView)
    requires
        callback_encodable(c),
    ensures
        spec_decode_callback(enc_callback(c)) == Some(c),
{
    let e = Seq::<u8>::empty();
    let s6 = enc_accounting_info(c.accounting_info) + e;
    let s5 = enc_u64(c.result_counter) + s6;
    let s4 = enc_opt_callback_info(c.callback) + s5;
    let s3 = enc_u64(c.mana as u64) + s4;
    let s2 = enc_opt_bytes_list(c.results) + s3;
    let s1 = enc_bytes(c.args) + s2;
    let s0 = enc_bytes(c.method_name) + s1;
    assert(enc_callback(c) == s0) by {
        assert(enc_callback(c) =~= s0);
    }
    assert(dec_bytes(s0) == Some((c.method_name, s1))) by {
        lemma_bytes_roundtrip(c.method_name, s1);
    }
    assert(dec_bytes(s1) == Some((c.args, s2))) by {
        lemma_bytes_roundtrip(c.args, s2);
    }
    assert(dec_opt_bytes_list(s2) == Some((c.results, s3))) by {
        lemma_opt_bytes_list_roundtrip(c.results, s3);
    }
    assert(dec_u64(s3) == Some((c.mana as u64, s4))) by {
        lemma_u64_roundtrip(c.mana as u64, s4);
    }
    assert(dec_opt_callback_info(s4) == Some((c.callback, s5))) by {
        lemma_opt_callback_info_roundtrip(c.callback, s5);
    }
    assert(dec_u64(s5) == Some((c.result_counter, s6))) by {
        lemma_u64_roundtrip(c.result_counter, s6);
    }
    assert(dec_accounting_info(s6) == Some((c.accounting_info, e))) by {
        lemma_accounting_info_roundtrip(c.accounting_info, e);
    }
}

/// The encoding of a callback.
pub fn encode_callback(c: &Callback) -> (bytes: Vec<u8>)
    ensures
        bytes@ == enc_callback(c@),
{
    let mut out: Vec<u8> = Vec::new();
    write_bytes(&mut out, c.method_name.as_slice());
    write_bytes(&mut out, c.args.as_slice());
    write_opt_bytes_list(&mut out, &c.results);
    write_u64(&mut out, c.mana as u64);
    write_opt_callback_info(&mut out, &c.callback);
    write_u64(&mut out, c.result_counter);
    write_accounting_info(&mut out, &c.accounting_info);
    assert(out@ =~= enc_callback(c@));
    out
}

/// Decodes a callback: `None` where the bytes are not the encoding of one.
pub fn decode_callback(bytes: &[u8]) -> (r: Option<Callback>)
    ensures
        r is Some == spec_decode_callback(bytes@) is Some,
        r is Some ==> r.unwrap()@ == spec_decode_callback(bytes@).unwrap(),
{
    assert(bytes@.skip(0) =~= bytes@);
    let (method_name, pos1) = match read_bytes(bytes, 0) {
        Some(x) => x,
        None => {
            return None;
        },
    };
    let (args, pos2) = match read_bytes(bytes, pos1) {
        Some(x) => x,
        None => {
            return None;
        },
    };
    let (results, pos3) = match read_opt_bytes_list(bytes, pos2) {
        Some(x) => x,
        None => {
            return None;
        },
    };
    let (mana, pos4) = match read_u64(bytes, pos3) {
        Some(x) => x,
        None => {
            return None;
        },
    };
    if mana > u32::MAX as u64 {
        return None;
    }
    let (callback, pos5) = match read_opt_callback_info(bytes, pos4) {
        Some(x) => x,
        None => {
            return None;
        },
    };
    let (result_counter, pos6) = match read_u64(bytes, pos5) {
        Some(x) => x,
        None => {
            return None;
        },
    };
    let (accounting_info, pos7) = match read_accounting_info(bytes, pos6) {
        Some(x) => x,
        None => {
            return None;
        },
    };
    if pos7 != bytes.len() {
        return None;
    }
    Some(
        Callback {
            method_name,
            args,
            results,
            mana: mana as u32,
            callback,
            result_counter,
            accounting_info,
        },
    )
}

// ---------------------------------------------------------------------------
// Code and arguments
// ---------------------------------------------------------------------------
/// The byte string that `bytes` encode, if they encode one and nothing more.
pub open spec fn spec_decode_blob(bytes: Seq<u8>) -> Option<Seq<u8>> {
    match dec_bytes(bytes) {
        Some((b, rest)) => if rest.len() == 0 {
            Some(b)
        } else {
            None
        },
        None => None,
    }
}

/// Decoding the encoding of a byte string stored as a value gives it back, with what followed it.
pub proof fn lemma_blob_roundtrip(b: Seq<u8>)
    requires
        b.len() <= u64::MAX,
    ensures
        spec_decode_blob(enc_bytes(b)) == Some(b),
{
    lemma_bytes_roundtrip(b, Seq::empty());
    assert(enc_bytes(b) + Seq::<u8>::empty() =~= enc_bytes(b));
}

/// The encoding of a byte string stored as a value.
pub fn encode_blob(b: &[u8]) -> (bytes: Vec<u8>)
    ensures
        bytes@ == enc_bytes(b@),
{
    let mut out: Vec<u8> = Vec::new();
    write_bytes(&mut out, b);
    assert(out@ =~= enc_bytes(b@));
    out
}

/// Decodes a byte string stored as a value: `None` where the bytes are not the encoding of one.
pub fn decode_blob(bytes: &[u8]) -> (r: Option<Vec<u8>>)
    ensures
        opt_bytes(r) == spec_decode_blob(bytes@),
{
    assert(bytes@.skip(0) =~= bytes@);
    match read_bytes(bytes, 0) {
        Some((b, p)) => if p == bytes.len() {
            Some(b)
        } else {
            None
        },
        None => None,
    }
}

/// The encoding of a public key with the code to deploy under it.
pub open spec fn enc_deploy_args(public_key: Seq<u8>, code: Seq<u8>) -> Seq<u8> {
    enc_bytes(public_key) + enc_bytes(code)
}

/// The key and the code that `bytes` encode, if they encode the two and nothing more.
pub open spec fn spec_decode_deploy_args(bytes: Seq<u8>) -> Option<(Seq<u8>, Seq<u8>)> {
    match dec_bytes(bytes) {
        Some((public_key, r1)) => match dec_bytes(r1) {
            Some((code, r2)) => if r2.len() == 0 {
                Some((public_key, code))
            } else {
                None
            },
            None => None,
        },
        None => None,
    }
}

/// Decoding the encoding of a public key with the code to deploy gives it back, with what followed it.
pub proof fn lemma_deploy_args_roundtrip(public_key: Seq<u8>, code: Seq<u8>)
    requires
        public_key.len() <= u64::MAX,
        code.len() <= u64::MAX,
    ensures
        spec_decode_deploy_args(enc_deploy_args(public_key, code)) == Some((public_key, code)),
{
    let e = Seq::<u8>::empty();
    lemma_bytes_roundtrip(public_key, enc_bytes(code) + e);
    lemma_bytes_roundtrip(code, e);
    assert(enc_deploy_args(public_key, code) =~= enc_bytes(public_key) + (enc_bytes(code) + e));
}

/// The encoding of a public key with the code to deploy.
pub fn encode_deploy_args(public_key: &[u8], code: &[u8]) -> (bytes: Vec<u8>)
    ensures
        bytes@ == enc_deploy_args(public_key@, code@),
{
    let mut out: Vec<u8> = Vec::new();
    write_bytes(&mut out, public_key);
    write_bytes(&mut out, code);
    assert(out@ =~= enc_deploy_args(public_key@, code@));
    out
}

/// Decodes a public key with the code to deploy: `None` where the bytes are not the encoding of one.
pub fn decode_deploy_args(bytes: &[u8]) -> (r: Option<(Vec<u8>, Vec<u8>)>)
    ensures
        r is Some == spec_decode_deploy_args(bytes@) is Some,
        r is Some ==> (r.unwrap().0@, r.unwrap().1@) == spec_decode_deploy_args(bytes@).unwrap(),
{
    assert(bytes@.skip(0) =~= bytes@);
    let (public_key, pos1) = match read_bytes(bytes, 0) {
        Some(x) => x,
        None => {
            return None;
        },
    };
    let (code, pos2) = match read_bytes(bytes, pos1) {
        Some(x) => x,
        None => {
            return None;
        },
    };
    if pos2 != bytes.len() {
        return None;
    }
    Some((public_key, code))
}

/// Number of bytes in a public key.
pub const PUBLIC_KEY_LEN: usize = 32;

/// The public key that `bytes` hold: the bytes themselves, if there are 32.
pub open spec fn spec_decode_public_key(bytes: Seq<u8>) -> Option<Seq<u8>> {
    if bytes.len() == PUBLIC_KEY_LEN {
        Some(bytes)
    } else {
        None
    }
}

/// Takes `bytes` as a public key: `None` where they are not 32.
pub fn decode_public_key(bytes: &[u8]) -> (r: Option<PublicKey>)
    ensures
        opt_bytes(r) == spec_decode_public_key(bytes@),
{
    if bytes.len() == PUBLIC_KEY_LEN {
        Some(crate::bytes::copy_bytes(bytes))
    } else {
        None
    }
}

// ---------------------------------------------------------------------------
// Typed access to the state
// ---------------------------------------------------------------------------
/// The account `id` in `state`; a record that cannot be read counts as absent.
pub open spec fn spec_get_account(state: StateMap, id: Seq<char>) -> Option<AccountView> {
    match stored(state, spec_account_key(COL_ACCOUNT, id)) {
        Some(bytes) => spec_decode_account(bytes),
        None => None,
    }
}

/// `state` with `account` stored for `id`.
pub open spec fn spec_set_account(state: StateMap, id: Seq<char>, account: AccountView) -> StateMap {
    state.insert(spec_account_key(COL_ACCOUNT, id), enc_account(account))
}

/// The code of the account `id` in `state`.
pub open spec fn spec_get_code(state: StateMap, id: Seq<char>) -> Option<Seq<u8>> {
    match stored(state, spec_account_key(COL_CODE, id)) {
        Some(bytes) => spec_decode_blob(bytes),
        None => None,
    }
}

/// `state` with `code` stored for `id`.
pub open spec fn spec_set_code(state: StateMap, id: Seq<char>, code: Seq<u8>) -> StateMap {
    state.insert(spec_account_key(COL_CODE, id), enc_bytes(code))
}

/// The callback `id` in `state`.
pub open spec fn spec_get_callback(state: StateMap, id: Seq<u8>) -> Option<CallbackView> {
    match stored(state, spec_callback_key(id)) {
        Some(bytes) => spec_decode_callback(bytes),
        None => None,
    }
}

/// `state` with `callback` stored under `id`.
pub open spec fn spec_set_callback(state: StateMap, id: Seq<u8>, callback: CallbackView) -> StateMap {
    state.insert(spec_callback_key(id), enc_callback(callback))
}

/// The mana bucket that `info` names, in `state`.
pub open spec fn spec_get_tx_stake(state: StateMap, info: AccountingInfoView) -> Option<TxTotalStake> {
    match stored(state, spec_tx_stake_key(info.originator, info.contract_id)) {
        Some(bytes) => spec_decode_tx_stake(bytes),
        None => None,
    }
}

/// `state` with `stake` stored as the bucket that `info` names.
pub open spec fn spec_set_tx_stake(state: StateMap, info: AccountingInfoView, stake: TxTotalStake) -> StateMap {
    state.insert(spec_tx_stake_key(info.originator, info.contract_id), enc_tx_stake(stake))
}

/// Reads the account `id` from the staged state.
pub fn get_account(state_update: &StateDbUpdate, id: &AccountId) -> (r: Option<Account>)
    requires
        state_update.wf(),
    ensures
        r is Some == spec_get_account(state_update@, id@) is Some,
        r is Some ==> r.unwrap()@ == spec_get_account(state_update@, id@).unwrap(),
{
    match state_update.get(account_id_to_bytes(COL_ACCOUNT, id).as_slice()) {
        Some(bytes) => decode_account(bytes.as_slice()),
        None => None,
    }
}

/// Writes `account` as the account `id` to the staged state.
pub fn set_account(state_update: &mut StateDbUpdate, id: &AccountId, account: &Account)
    requires
        old(state_update).wf(),
    ensures
        only_staged(old(state_update), final(state_update)),
        final(state_update)@ == spec_set_account(old(state_update)@, id@, account@),
{
    let key = account_id_to_bytes(COL_ACCOUNT, id);
    let value = encode_account(account);
    state_update.set(key.as_slice(), value.as_slice());
}

/// Reads the code of the account `id` from the staged state.
pub fn get_code(state_update: &StateDbUpdate, id: &AccountId) -> (r: Option<Vec<u8>>)
    requires
        state_update.wf(),
    ensures
        opt_bytes(r) == spec_get_code(state_update@, id@),
{
    match state_update.get(account_id_to_bytes(COL_CODE, id).as_slice()) {
        Some(bytes) => decode_blob(bytes.as_slice()),
        None => None,
    }
}

/// Writes `code` as the code of the account `id` to the staged state.
pub fn set_code(state_update: &mut StateDbUpdate, id: &AccountId, code: &[u8])
    requires
        old(state_update).wf(),
    ensures
        only_staged(old(state_update), final(state_update)),
        final(state_update)@ == spec_set_code(old(state_update)@, id@, code@),
{
    let key = account_id_to_bytes(COL_CODE, id);
    let value = encode_blob(code);
    state_update.set(key.as_slice(), value.as_slice());
}

/// Reads the callback `id` from the staged state.
pub fn get_callback(state_update: &StateDbUpdate, id: &[u8]) -> (r: Option<Callback>)
    requires
        state_update.wf(),
    ensures
        r is Some == spec_get_callback(state_update@, id@) is Some,
        r is Some ==> r.unwrap()@ == spec_get_callback(state_update@, id@).unwrap(),
{
    match state_update.get(callback_id_to_bytes(id).as_slice()) {
        Some(bytes) => decode_callback(bytes.as_slice()),
        None => None,
    }
}

/// Writes `callback` as the callback `id` to the staged state.
pub fn set_callback(state_update: &mut StateDbUpdate, id: &[u8], callback: &Callback)
    requires
        old(state_update).wf(),
    ensures
        only_staged(old(state_update), final(state_update)),
        final(state_update)@ == spec_set_callback(old(state_update)@, id@, callback@),
{
    let key = callback_id_to_bytes(id);
    let value = encode_callback(callback);
    state_update.set(key.as_slice(), value.as_slice());
}

/// Removes the callback `id` from the staged state.
pub fn remove_callback(state_update: &mut StateDbUpdate, id: &[u8])
    requires
        old(state_update).wf(),
    ensures
        only_staged(old(state_update), final(state_update)),
        final(state_update)@ == old(state_update)@.remove(spec_callback_key(id@)),
{
    let key = callback_id_to_bytes(id);
    state_update.remove(key.as_slice());
}

/// Reads the mana bucket that `info` names from the staged state.
pub fn get_tx_stake(state_update: &StateDbUpdate, info: &AccountingInfo) -> (r: Option<TxTotalStake>)
    requires
        state_update.wf(),
    ensures
        r == spec_get_tx_stake(state_update@, info@),
{
    let key = get_tx_stake_key(&info.originator, &info.contract_id);
    match state_update.get(key.as_slice()) {
        Some(bytes) => decode_tx_stake(bytes.as_slice()),
        None => None,
    }
}

/// Writes `stake` as the mana bucket that `info` names to the staged state.
pub fn set_tx_stake(state_update: &mut StateDbUpdate, info: &AccountingInfo, stake: &TxTotalStake)
    requires
        old(state_update).wf(),
    ensures
        only_staged(old(state_update), final(state_update)),
        final(state_update)@ == spec_set_tx_stake(old(state_update)@, info@, *stake),
{
    let key = get_tx_stake_key(&info.originator, &info.contract_id);
    let value = encode_tx_stake(stake);
    state_update.set(key.as_slice(), value.as_slice());
}

} // verus!
