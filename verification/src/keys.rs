//! Account ids, and the layout of the keys under which records are stored.
//!
//! Each key starts with the byte of its column. An account key and a code
//! key are the column followed by the account id, a callback key is the
//! column followed by the callback id, and the key of a mana bucket is the
//! column, the originator, a separator and the contract if there is one.
use crate::types::{AccountId, ShardId};
use vstd::prelude::*;
use vstd::utf8::encode_utf8;

verus! {

/// Column of the account records.
pub const COL_ACCOUNT: u8 = 0;

/// Column of the pending callbacks.
pub const COL_CALLBACK: u8 = 1;

/// Column of the contract code.
pub const COL_CODE: u8 = 2;

/// Column of the mana buckets.
pub const COL_TX_STAKE: u8 = 3;

/// Separates the originator from the contract in the key of a mana bucket.
pub const COL_TX_STAKE_SEPARATOR: u8 = 4;

/// Separates an account key from the key of a value in the account's storage.
pub const ACCOUNT_DATA_SEPARATOR: u8 = 0x2c;

/// The least number of bytes in an account id.
pub const MIN_ACCOUNT_ID_LEN: usize = 5;

/// The greatest number of bytes in an account id.
pub const MAX_ACCOUNT_ID_LEN: usize = 32;

/// The key of the account `id` in the column `col`.
pub open spec fn spec_account_key(col: u8, id: Seq<char>) -> Seq<u8> {
    seq![col] + encode_utf8(id)
}

/// The key of the callback `id`.
pub open spec fn spec_callback_key(id: Seq<u8>) -> Seq<u8> {
    seq![COL_CALLBACK] + id
}

/// The key of the mana bucket of `originator`, for `contract_id` or general.
pub open spec fn spec_tx_stake_key(originator: Seq<char>, contract_id: Option<Seq<char>>) -> Seq<
    u8,
> {
    seq![COL_TX_STAKE] + encode_utf8(originator) + seq![COL_TX_STAKE_SEPARATOR] + match contract_id {
        Some(c) => encode_utf8(c),
        None => Seq::empty(),
    }
}

/// The key of `key` in the storage of the account `id`.
pub open spec fn spec_storage_key(id: Seq<char>, key: Seq<u8>) -> Seq<u8> {
    spec_account_key(COL_ACCOUNT, id) + seq![ACCOUNT_DATA_SEPARATOR] + key
}

/// Builds the key of the account `account_key` in the column `col`.
pub fn account_id_to_bytes(col: u8, account_key: &AccountId) -> (key: Vec<u8>)
    ensures
        key@ == spec_account_key(col, account_key@),
{
    let mut key: Vec<u8> = Vec::new();
    key.push(col);
    key.extend_from_slice(account_key.as_str().as_bytes());
    assert(key@ =~= spec_account_key(col, account_key@));
    key
}

/// Builds the key under which the callback `id` is stored.
pub fn callback_id_to_bytes(id: &[u8]) -> (key: Vec<u8>)
    ensures
        key@ == spec_callback_key(id@),
{
    let mut key: Vec<u8> = Vec::new();
    key.push(COL_CALLBACK);
    key.extend_from_slice(id);
    assert(key@ =~= spec_callback_key(id@));
    key
}

/// Builds the key of a mana bucket.
pub fn get_tx_stake_key(originator: &AccountId, contract_id: &Option<AccountId>) -> (key: Vec<u8>)
    ensures
        key@ == spec_tx_stake_key(originator@, crate::bytes::opt_chars(*contract_id)),
{
    let mut key: Vec<u8> = Vec::new();
    key.push(COL_TX_STAKE);
    key.extend_from_slice(originator.as_str().as_bytes());
    key.push(COL_TX_STAKE_SEPARATOR);
    match contract_id {
        Some(c) => {
            key.extend_from_slice(c.as_str().as_bytes());
            assert(key@ =~= spec_tx_stake_key(originator@, Some(c@)));
        },
        None => {
            assert(key@ =~= spec_tx_stake_key(originator@, None));
        },
    }
    key
}

/// Builds the key of `key` in the storage of the account `account_id`.
pub fn create_storage_key(account_id: &AccountId, key: &[u8]) -> (storage_key: Vec<u8>)
    ensures
        storage_key@ == spec_storage_key(account_id@, key@),
{
    let mut storage_key = account_id_to_bytes(COL_ACCOUNT, account_id);
    storage_key.push(ACCOUNT_DATA_SEPARATOR);
    storage_key.extend_from_slice(key);
    assert(storage_key@ =~= spec_storage_key(account_id@, key@));
    storage_key
}

/// A byte that an account id may hold: a lower-case letter, a digit, or one
/// of `@`, `.`, `_` and `-`.
pub open spec fn spec_valid_id_byte(b: u8) -> bool {
    ||| 0x61 <= b <= 0x7a
    ||| 0x30 <= b <= 0x39
    ||| b == 0x40
    ||| b == 0x2e
    ||| b == 0x5f
    ||| b == 0x2d
}

/// An account id is valid when it has 5 to 32 bytes, each of them allowed.
pub open spec fn spec_valid_account_id(id: Seq<char>) -> bool {
    let bytes = encode_utf8(id);
    &&& MIN_ACCOUNT_ID_LEN <= bytes.len() <= MAX_ACCOUNT_ID_LEN
    &&& forall|i: int| 0 <= i < bytes.len() ==> spec_valid_id_byte(#[trigger] bytes[i])
}

fn is_valid_id_byte(b: u8) -> (r: bool)
    ensures
        r == spec_valid_id_byte(b),
{
    (0x61 <= b && b <= 0x7a) || (0x30 <= b && b <= 0x39) || b == 0x40 || b == 0x2e || b == 0x5f
        || b == 0x2d
}

/// Whether `account_id` is a valid account id.
pub fn is_valid_account_id(account_id: &AccountId) -> (r: bool)
    ensures
        r == spec_valid_account_id(account_id@),
{
    let bytes = account_id.as_str().as_bytes();
    if bytes.len() < MIN_ACCOUNT_ID_LEN || bytes.len() > MAX_ACCOUNT_ID_LEN {
        return false;
    }
    let mut i: usize = 0;
    while i < bytes.len()
        invariant
            i <= bytes.len(),
            bytes@ == encode_utf8(account_id@),
            forall|k: int| 0 <= k < i ==> spec_valid_id_byte(#[trigger] bytes@[k]),
        decreases bytes.len() - i,
    {
        if !is_valid_id_byte(bytes[i]) {
            return false;
        }
        i += 1;
    }
    true
}

/// The shard of an account. There is one shard.
pub open spec fn spec_shard_of(account_id: Seq<char>) -> ShardId {
    0
}

/// The shard that holds the account `account_id`.
pub fn account_to_shard_id(account_id: &AccountId) -> (shard: ShardId)
    ensures
        shard == spec_shard_of(account_id@),
{
    0
}

/// The account in whose name the runtime refunds.
pub open spec fn spec_system_account() -> Seq<char> {
    "system"@
}

/// The account in whose name the runtime refunds.
pub fn system_account() -> (id: AccountId)
    ensures
        id@ == spec_system_account(),
{
    String::from_str("system")
}

/// The name of the system method that creates an account.
pub open spec fn spec_method_create_account() -> Seq<u8> {
    encode_utf8("_sys:create_account"@)
}

/// The name of the system method that deploys a contract.
pub open spec fn spec_method_deploy() -> Seq<u8> {
    encode_utf8("_sys:deploy"@)
}

/// The name of the system method that creates an account.
pub fn system_method_create_account() -> (name: Vec<u8>)
    ensures
        name@ == spec_method_create_account(),
{
    "_sys:create_account".as_bytes_vec()
}

/// The name of the system method that deploys a contract.
pub fn system_method_deploy() -> (name: Vec<u8>)
    ensures
        name@ == spec_method_deploy(),
{
    "_sys:deploy".as_bytes_vec()
}

} // verus!
