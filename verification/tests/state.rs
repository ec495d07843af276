use node_runtime::bytes::{rank, same_bytes, Rank};
use node_runtime::hash::hash;
use node_runtime::keys::{
    account_id_to_bytes, account_to_shard_id, create_storage_key, get_tx_stake_key,
    is_valid_account_id, system_account, system_method_create_account, system_method_deploy,
    COL_ACCOUNT, COL_CODE,
};
use node_runtime::sorted::KeyValueList;
use node_runtime::state::{empty_root, StaleChanges, StateDb, StateDbUpdate};
use node_runtime::tx_stakes::{TxStakeConfig, TxTotalStake};

#[test]
fn ranks_follow_the_lexicographic_order() {
    assert_eq!(rank(&[], &[]), Rank::Same);
    assert_eq!(rank(&[], &[0]), Rank::Before);
    assert_eq!(rank(&[0], &[]), Rank::After);
    assert_eq!(rank(&[1, 2], &[1, 3]), Rank::Before);
    assert_eq!(rank(&[1, 2, 0], &[1, 2]), Rank::After);
    assert_eq!(rank(&[2], &[1, 9, 9]), Rank::After);
    assert!(same_bytes(&[1, 2], &[1, 2]));
    assert!(!same_bytes(&[1, 2], &[1, 2, 3]));
    assert!(!same_bytes(&[1, 2], &[1, 3]));
}

#[test]
fn list_keeps_its_keys_in_order() {
    let mut list = KeyValueList::new();
    list.put(vec![2], Some(vec![20]));
    list.put(vec![1, 5], Some(vec![15]));
    list.put(vec![1], None);
    list.put(vec![2], Some(vec![21]));
    let keys: Vec<Vec<u8>> = (0..list.len()).map(|i| list.entry(i).key.clone()).collect();
    assert_eq!(keys, vec![vec![1], vec![1, 5], vec![2]]);
    assert_eq!(list.get(&[2]), Some(&Some(vec![21])));
    assert_eq!(list.get(&[1]), Some(&None));
    assert_eq!(list.get(&[3]), None);
    list.delete(&[1, 5]);
    list.delete(&[9]);
    assert_eq!(list.len(), 2);
    assert_eq!(list.duplicate(), list);
    list.clear();
    assert_eq!(list.len(), 0);
}

#[test]
fn account_ids() {
    assert!(is_valid_account_id(&"alice.near".to_string()));
    assert!(is_valid_account_id(&"a_b-c@d.e".to_string()));
    assert!(is_valid_account_id(&"01234".to_string()));
    assert!(is_valid_account_id(&"a".repeat(32)));
    assert!(!is_valid_account_id(&"a".repeat(33)));
    assert!(!is_valid_account_id(&"abcd".to_string()));
    assert!(!is_valid_account_id(&"".to_string()));
    assert!(!is_valid_account_id(&"eve".to_string()));
    assert!(!is_valid_account_id(&"Alice.near".to_string()));
    assert!(!is_valid_account_id(&"alice(near)".to_string()));
    assert!(!is_valid_account_id(&"long_of_the_name_for_real_is_hard".to_string()));
    assert!(!is_valid_account_id(&"qq@qq*qq".to_string()));
    assert!(!is_valid_account_id(&"alice near".to_string()));
    assert!(!is_valid_account_id(&"alic\u{e9}.near".to_string()));
}

#[test]
fn keys_start_with_their_column() {
    let alice = "alice.near".to_string();
    assert_eq!(account_id_to_bytes(COL_ACCOUNT, &alice), b"\x00alice.near".to_vec());
    assert_eq!(account_id_to_bytes(COL_CODE, &alice), b"\x02alice.near".to_vec());
    assert_eq!(get_tx_stake_key(&alice, &None), b"\x03alice.near\x04".to_vec());
    assert_eq!(
        get_tx_stake_key(&alice, &Some("bob.near".to_string())),
        b"\x03alice.near\x04bob.near".to_vec()
    );
    assert_eq!(create_storage_key(&alice, b"k"), b"\x00alice.near,k".to_vec());
    assert_eq!(system_account(), "system".to_string());
    assert_eq!(system_method_create_account(), b"_sys:create_account".to_vec());
    assert_eq!(system_method_deploy(), b"_sys:deploy".to_vec());
    assert_eq!(account_to_shard_id(&alice), 0);
}

#[test]
fn empty_database_has_the_zero_root() {
    let db = StateDb::new();
    assert_eq!(db.root(), vec![0; 32]);
    assert_eq!(empty_root(), vec![0; 32]);
    assert_eq!(db.len(), 0);
    assert_eq!(db.get(b"k"), None);
}

#[test]
fn staged_layer_reads_what_it_wrote() {
    let db = StateDb::new();
    let mut update = StateDbUpdate::new(&db, &empty_root());
    assert_eq!(update.get(b"a"), None);
    update.set(b"a", b"1");
    assert_eq!(update.get(b"a"), Some(b"1".to_vec()));
    update.commit();
    update.set(b"a", b"2");
    update.set(b"b", b"3");
    update.remove(b"a");
    assert_eq!(update.get(b"a"), None);
    assert_eq!(update.get(b"b"), Some(b"3".to_vec()));
    update.rollback();
    assert_eq!(update.get(b"a"), Some(b"1".to_vec()));
    assert_eq!(update.get(b"b"), None);
}

#[test]
fn finalize_commits_what_is_staged() {
    let mut db = StateDb::new();
    let (changes, root) = {
        let mut update = StateDbUpdate::new(&db, &empty_root());
        update.set(b"b", b"2");
        update.commit();
        update.set(b"a", b"1");
        update.finalize()
    };
    assert_eq!(changes.len(), 2);
    db.commit(changes).unwrap();
    assert_eq!(db.root(), root);
    assert_eq!(db.get(b"a"), Some(b"1".to_vec()));
    assert_eq!(db.get(b"b"), Some(b"2".to_vec()));
    // The root is the digest of the entries in the order of their keys.
    let mut bytes = vec![];
    for (key, value) in [(b"a", b"1"), (b"b", b"2")] {
        bytes.extend_from_slice(&1u64.to_le_bytes());
        bytes.extend_from_slice(key);
        bytes.push(1);
        bytes.extend_from_slice(&1u64.to_le_bytes());
        bytes.extend_from_slice(value);
    }
    assert_eq!(root, hash(&bytes));
}

#[test]
fn root_does_not_depend_on_the_order_of_writes() {
    let db = StateDb::new();
    let mut one = StateDbUpdate::new(&db, &empty_root());
    one.set(b"a", b"1");
    one.set(b"b", b"2");
    one.set(b"c", b"3");
    one.remove(b"c");
    let mut other = StateDbUpdate::new(&db, &empty_root());
    other.set(b"b", b"0");
    other.commit();
    other.set(b"b", b"2");
    other.set(b"a", b"1");
    assert_eq!(one.finalize().1, other.finalize().1);
}

#[test]
fn removing_everything_leads_back_to_the_zero_root() {
    let mut db = StateDb::new();
    let (changes, root) = {
        let mut update = StateDbUpdate::new(&db, &empty_root());
        update.set(b"a", b"1");
        update.finalize()
    };
    db.commit(changes).unwrap();
    let (changes, back) = {
        let mut update = StateDbUpdate::new(&db, &root);
        update.remove(b"a");
        update.finalize()
    };
    assert_eq!(back, vec![0; 32]);
    db.commit(changes).unwrap();
    assert_eq!(db.len(), 0);
    assert_eq!(db.root(), vec![0; 32]);
}

#[test]
fn layer_on_an_unknown_root_sees_the_empty_state() {
    let mut db = StateDb::new();
    let (changes, root) = {
        let mut update = StateDbUpdate::new(&db, &empty_root());
        update.set(b"a", b"1");
        update.finalize()
    };
    db.commit(changes).unwrap();
    let stale = StateDbUpdate::new(&db, &[9; 32]);
    assert_eq!(stale.get(b"a"), None);
    // Changes made over another root are refused.
    let (changes, _) = {
        let mut update = StateDbUpdate::new(&db, &empty_root());
        update.set(b"b", b"2");
        update.finalize()
    };
    assert_eq!(db.commit(changes), Err(StaleChanges {}));
    assert_eq!(db.get(b"a"), Some(b"1".to_vec()));
    assert_eq!(db.get(b"b"), None);
    assert_eq!(db.root(), root);
}

#[test]
fn bucket_grants_mana_by_stake() {
    let config = TxStakeConfig::default();
    assert_eq!(config.mana_per_coin, 1);
    let mut bucket = TxTotalStake::new(3);
    assert_eq!(bucket.available_mana(&config), 0);
    bucket.add_active_stake(100);
    assert_eq!(bucket.available_mana(&config), 100);
    bucket.charge_mana(30);
    assert_eq!(bucket.available_mana(&config), 70);
    assert_eq!(bucket.mana_used, 30);
    bucket.refund_mana_and_charge_gas(10, 5);
    assert_eq!(bucket.mana_used, 20);
    assert_eq!(bucket.gas_used, 5);
    assert_eq!(bucket.last_update_block_index, 3);
}

#[test]
fn bucket_regenerates_with_the_blocks() {
    let config = TxStakeConfig {
        mana_per_coin: 2,
        mana_regen_per_block_per_coin: 1,
        gas_regen_per_block_per_coin: 3,
    };
    let mut bucket = TxTotalStake {
        active_stake: 4,
        mana_used: 100,
        gas_used: 100,
        last_update_block_index: 10,
    };
    assert_eq!(bucket.available_mana(&config), 0);
    // No block has passed.
    bucket.update(10, &config);
    bucket.update(9, &config);
    assert_eq!(bucket.mana_used, 100);
    // Two blocks: 2 * 4 * 1 mana and 2 * 4 * 3 gas come back.
    bucket.update(12, &config);
    assert_eq!(bucket.mana_used, 92);
    assert_eq!(bucket.gas_used, 76);
    assert_eq!(bucket.last_update_block_index, 12);
    // Many blocks: down to nothing used, and no further.
    bucket.update(u64::MAX, &config);
    assert_eq!(bucket.mana_used, 0);
    assert_eq!(bucket.gas_used, 0);
    assert_eq!(bucket.available_mana(&config), 8);
}

#[test]
fn bucket_amounts_saturate() {
    let config = TxStakeConfig::default();
    let mut bucket = TxTotalStake::new(0);
    bucket.add_active_stake(u64::MAX);
    bucket.add_active_stake(1);
    assert_eq!(bucket.active_stake, u64::MAX);
    bucket.charge_mana(u32::MAX);
    bucket.refund_mana_and_charge_gas(0, u64::MAX);
    bucket.refund_mana_and_charge_gas(0, 1);
    assert_eq!(bucket.gas_used, u64::MAX);
    bucket.refund_mana_and_charge_gas(u32::MAX, 0);
    bucket.refund_mana_and_charge_gas(1, 0);
    assert_eq!(bucket.mana_used, 0);
    assert_eq!(bucket.available_mana(&config), u64::MAX);
}

#[test]
fn changes_hold_only_what_differs_from_the_base() {
    let mut db = StateDb::new();
    let (changes, root) = {
        let mut update = StateDbUpdate::new(&db, &empty_root());
        update.set(b"a", b"1");
        update.set(b"b", b"2");
        update.finalize()
    };
    db.commit(changes).unwrap();
    let (changes, same_root) = {
        let mut update = StateDbUpdate::new(&db, &root);
        // Written again as it is, written and restored, created and removed.
        update.set(b"a", b"1");
        update.set(b"b", b"9");
        update.commit();
        update.set(b"b", b"2");
        update.set(b"c", b"3");
        update.remove(b"c");
        update.finalize()
    };
    assert_eq!(changes.len(), 0);
    assert_eq!(same_root, root);
    let (changes, _) = {
        let mut update = StateDbUpdate::new(&db, &root);
        update.set(b"a", b"1");
        update.set(b"b", b"9");
        update.remove(b"zz");
        update.finalize()
    };
    assert_eq!(changes.len(), 1);
}
