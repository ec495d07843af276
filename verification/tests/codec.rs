use node_runtime::codec::{
    read_bytes, read_bytes_list, read_opt_bytes, read_opt_bytes_list, read_opt_string,
    read_string, read_u64, write_bytes, write_opt_bytes, write_string, write_u64,
};
use node_runtime::hash::{create_nonce_with_nonce, hash, index_to_bytes};
use node_runtime::records::{
    decode_account, decode_blob, decode_callback, decode_deploy_args, decode_public_key,
    encode_account, encode_blob, encode_callback, encode_deploy_args, Account,
};
use node_runtime::transaction::{
    default_signature, SendMoneyTransaction, SignedTransaction, StakeTransaction, TransactionBody,
};
use node_runtime::tx_stakes::{decode_tx_stake, encode_tx_stake, TxTotalStake};
use node_runtime::types::{AccountingInfo, Callback, CallbackInfo};

fn sample_account() -> Account {
    Account {
        public_keys: vec![vec![1; 32], vec![2; 32]],
        nonce: 3,
        amount: 0x0102030405060708,
        staked: 50,
        code_hash: hash(b"code"),
    }
}

fn sample_callback() -> Callback {
    Callback {
        method_name: b"sum_with_input".to_vec(),
        args: vec![9, 8, 7],
        results: vec![None, Some(vec![1, 2]), Some(vec![])],
        mana: 17,
        callback: Some(CallbackInfo::new(vec![4; 32], 2, "alice.near".to_string())),
        result_counter: 2,
        accounting_info: AccountingInfo {
            originator: "alice.near".to_string(),
            contract_id: Some("bob.near".to_string()),
        },
    }
}

#[test]
fn index_bytes_are_big_endian() {
    assert_eq!(index_to_bytes(1), vec![0, 0, 0, 0, 0, 0, 0, 1]);
    assert_eq!(index_to_bytes(0x0102030405060708), vec![1, 2, 3, 4, 5, 6, 7, 8]);
    assert_eq!(index_to_bytes(u64::MAX), vec![255; 8]);
}

#[test]
fn hash_is_sha256() {
    let digest = hash(&[]);
    assert_eq!(
        digest,
        vec![
            0xe3, 0xb0, 0xc4, 0x42, 0x98, 0xfc, 0x1c, 0x14, 0x9a, 0xfb, 0xf4, 0xc8, 0x99, 0x6f,
            0xb9, 0x24, 0x27, 0xae, 0x41, 0xe4, 0x64, 0x9b, 0x93, 0x4c, 0xa4, 0x95, 0x99, 0x1b,
            0x78, 0x52, 0xb8, 0x55,
        ]
    );
    let abc = hash(b"abc");
    assert_eq!(abc[..4], [0xba, 0x78, 0x16, 0xbf]);
    assert_eq!(abc.len(), 32);
}

#[test]
fn nonce_is_hash_of_base_and_index() {
    let base = hash(&[1, 2, 3]);
    let mut preimage = base.clone();
    preimage.extend_from_slice(&[0, 0, 0, 0, 0, 0, 0, 5]);
    assert_eq!(create_nonce_with_nonce(&base, 5), hash(&preimage));
    assert_ne!(create_nonce_with_nonce(&base, 5), create_nonce_with_nonce(&base, 6));
}

#[test]
fn integers_are_little_endian() {
    let mut out = vec![0xff];
    write_u64(&mut out, 0x0102030405060708);
    assert_eq!(out, vec![0xff, 8, 7, 6, 5, 4, 3, 2, 1]);
    assert_eq!(read_u64(&out, 1), Some((0x0102030405060708, 9)));
    assert_eq!(read_u64(&out, 2), None);
    assert_eq!(read_u64(&out, 9), None);
}

#[test]
fn byte_strings_carry_their_length() {
    let mut out = vec![];
    write_bytes(&mut out, &[5, 6]);
    assert_eq!(out, vec![2, 0, 0, 0, 0, 0, 0, 0, 5, 6]);
    assert_eq!(read_bytes(&out, 0), Some((vec![5, 6], 10)));
    // A length that promises more than there is.
    assert_eq!(read_bytes(&[3, 0, 0, 0, 0, 0, 0, 0, 5, 6], 0), None);
    assert_eq!(read_bytes(&[255; 8], 0), None);
}

#[test]
fn strings_must_be_utf8() {
    let mut out = vec![];
    write_string(&mut out, &"h\u{e9}".to_string());
    assert_eq!(out, vec![3, 0, 0, 0, 0, 0, 0, 0, b'h', 0xc3, 0xa9]);
    assert_eq!(read_string(&out, 0), Some(("h\u{e9}".to_string(), 11)));
    assert_eq!(read_string(&[1, 0, 0, 0, 0, 0, 0, 0, 0xc3], 0), None);
}

#[test]
fn optional_values_carry_a_tag() {
    let mut out = vec![];
    write_opt_bytes(&mut out, &None);
    write_opt_bytes(&mut out, &Some(vec![7]));
    assert_eq!(out, vec![0, 1, 1, 0, 0, 0, 0, 0, 0, 0, 7]);
    assert_eq!(read_opt_bytes(&out, 0), Some((None, 1)));
    assert_eq!(read_opt_bytes(&out, 1), Some((Some(vec![7]), 11)));
    assert_eq!(read_opt_bytes(&[2], 0), None);
    assert_eq!(read_opt_bytes(&[], 0), None);
    assert_eq!(read_opt_string(&[0], 0), Some((None, 1)));
    assert_eq!(read_opt_string(&[1, 1, 0, 0, 0, 0, 0, 0, 0, b'a'], 0), Some((Some("a".to_string()), 10)));
}

#[test]
fn lists_carry_their_length() {
    let bytes = [2, 0, 0, 0, 0, 0, 0, 0, 1, 0, 0, 0, 0, 0, 0, 0, 9, 0, 0, 0, 0, 0, 0, 0, 0];
    assert_eq!(read_bytes_list(&bytes, 0), Some((vec![vec![9], vec![]], 25)));
    // One item short.
    assert_eq!(read_bytes_list(&bytes[..17], 0), None);
    let options = [2, 0, 0, 0, 0, 0, 0, 0, 0, 1, 0, 0, 0, 0, 0, 0, 0, 0];
    assert_eq!(read_opt_bytes_list(&options, 0), Some((vec![None, Some(vec![])], 18)));
    // A count that no input can hold.
    assert_eq!(read_opt_bytes_list(&[255, 255, 255, 255, 255, 255, 255, 255, 0], 0), None);
}

#[test]
fn account_round_trips() {
    let account = sample_account();
    let bytes = encode_account(&account);
    assert_eq!(decode_account(&bytes), Some(account));
}

#[test]
fn account_layout_is_that_of_bincode() {
    let account = sample_account();
    let expected = bincode::serialize(&(
        account.public_keys.clone(),
        account.nonce,
        account.amount,
        account.staked,
        account.code_hash.clone(),
    ))
    .unwrap();
    assert_eq!(encode_account(&account), expected);
}

#[test]
fn account_with_trailing_or_missing_bytes_is_unreadable() {
    let mut bytes = encode_account(&sample_account());
    bytes.push(0);
    assert_eq!(decode_account(&bytes), None);
    bytes.pop();
    bytes.pop();
    assert_eq!(decode_account(&bytes), None);
    assert_eq!(decode_account(&[]), None);
}

#[test]
fn callback_round_trips() {
    let callback = sample_callback();
    let bytes = encode_callback(&callback);
    assert_eq!(decode_callback(&bytes), Some(callback));
    let mut plain = sample_callback();
    plain.callback = None;
    plain.accounting_info.contract_id = None;
    plain.results = vec![];
    assert_eq!(decode_callback(&encode_callback(&plain)), Some(plain));
}

#[test]
fn callback_layout_is_that_of_bincode() {
    let callback = sample_callback();
    let info = callback.callback.clone().unwrap();
    let expected = bincode::serialize(&(
        callback.method_name.clone(),
        callback.args.clone(),
        callback.results.clone(),
        callback.mana as u64,
        Some((info.id, info.result_index, info.receiver)),
        callback.result_counter,
        (
            callback.accounting_info.originator.clone(),
            callback.accounting_info.contract_id.clone(),
        ),
    ))
    .unwrap();
    assert_eq!(encode_callback(&callback), expected);
}

#[test]
fn callback_with_mana_out_of_range_is_unreadable() {
    let mut callback = sample_callback();
    callback.mana = u32::MAX;
    let bytes = encode_callback(&callback);
    assert!(decode_callback(&bytes).is_some());
    // The mana field follows the method name, the arguments and the results.
    let at = (8 + 14) + (8 + 3) + (8 + 1 + (1 + 8 + 2) + (1 + 8));
    let mut wide = bytes.clone();
    wide[at + 4] = 1;
    assert_eq!(decode_callback(&wide), None);
}

#[test]
fn tx_stake_round_trips() {
    let stake = TxTotalStake {
        active_stake: 100,
        mana_used: 7,
        gas_used: 9,
        last_update_block_index: 11,
    };
    let bytes = encode_tx_stake(&stake);
    assert_eq!(bytes.len(), 32);
    assert_eq!(bytes[0], 100);
    assert_eq!(bytes[8], 7);
    assert_eq!(decode_tx_stake(&bytes), Some(stake));
    assert_eq!(decode_tx_stake(&bytes[..31]), None);
}

#[test]
fn blob_and_deploy_args_round_trip() {
    assert_eq!(decode_blob(&encode_blob(b"wasm")), Some(b"wasm".to_vec()));
    assert_eq!(decode_blob(b"wasm"), None);
    let args = encode_deploy_args(&[1; 32], b"code");
    assert_eq!(decode_deploy_args(&args), Some((vec![1; 32], b"code".to_vec())));
    assert_eq!(decode_deploy_args(&args[..args.len() - 1]), None);
    assert_eq!(args, bincode::serialize(&(vec![1u8; 32], b"code".to_vec())).unwrap());
}

#[test]
fn public_key_has_32_bytes() {
    assert_eq!(decode_public_key(&[3; 32]), Some(vec![3; 32]));
    assert_eq!(decode_public_key(&[3; 31]), None);
    assert_eq!(decode_public_key(&[3; 33]), None);
    assert_eq!(decode_public_key(&[]), None);
}

#[test]
fn transaction_hash_is_digest_of_tagged_fields() {
    let body = TransactionBody::SendMoney(SendMoneyTransaction {
        nonce: 1,
        originator: "alice.near".to_string(),
        receiver: "bob.near".to_string(),
        amount: 10,
    });
    let mut expected = vec![0u8];
    expected.extend_from_slice(&1u64.to_le_bytes());
    expected.extend_from_slice(&10u64.to_le_bytes());
    expected.extend_from_slice(b"alice.near");
    expected.extend_from_slice(&8u64.to_le_bytes());
    expected.extend_from_slice(b"bob.near");
    expected.extend_from_slice(&10u64.to_le_bytes());
    assert_eq!(body.encode(), expected);
    let transaction = SignedTransaction::new(default_signature(), body);
    assert_eq!(transaction.get_hash(), hash(&expected));
    assert_eq!(transaction.signature, vec![0; 64]);
}

#[test]
fn transaction_getters() {
    let stake = TransactionBody::Stake(StakeTransaction {
        nonce: 4,
        originator: "alice.near".to_string(),
        amount: 1,
    });
    assert_eq!(stake.get_originator(), "alice.near".to_string());
    assert_eq!(stake.get_nonce(), 4);
    assert_eq!(stake.get_contract_id(), None);
    assert_eq!(stake.get_mana(), 1);
    let send = TransactionBody::SendMoney(SendMoneyTransaction {
        nonce: 5,
        originator: "alice.near".to_string(),
        receiver: "bob.near".to_string(),
        amount: 1,
    });
    assert_eq!(send.get_contract_id(), Some("bob.near".to_string()));
    assert_eq!(send.encode()[0], 0);
    assert_eq!(stake.encode()[0], 1);
}
