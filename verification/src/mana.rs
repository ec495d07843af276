//! Charging the mana of a transaction to the buckets of its originator.
use crate::records::{get_tx_stake, set_tx_stake, spec_get_tx_stake, spec_set_tx_stake};
use crate::state::{only_staged, StateDbUpdate, StateMap};
use crate::tx_stakes::{spec_default_config, TxStakeConfig};
use crate::types::{AccountId, AccountingInfo, AccountingInfoView, BlockIndex, Mana};
use vstd::prelude::*;

verus! {

/// The state after `mana` was charged to the bucket `info` at `block_index`,
/// if the bucket exists and has that much.
pub open spec fn spec_charge_bucket(
    state: StateMap,
    block_index: BlockIndex,
    info: AccountingInfoView,
    mana: Mana,
) -> Option<StateMap> {
    match spec_get_tx_stake(state, info) {
        Some(bucket) => {
            let updated = bucket.spec_update(block_index, spec_default_config());
            if updated.spec_available_mana(spec_default_config()) >= mana {
                Some(spec_set_tx_stake(state, info, updated.spec_charge_mana(mana)))
            } else {
                None
            }
        },
        None => None,
    }
}

/// The bucket of `originator` for the contract `contract_id`.
pub open spec fn spec_scoped(originator: Seq<char>, contract_id: Seq<char>) -> AccountingInfoView {
    AccountingInfoView { originator, contract_id: Some(contract_id) }
}

/// The general bucket of `originator`.
pub open spec fn spec_general(originator: Seq<char>) -> AccountingInfoView {
    AccountingInfoView { originator, contract_id: None }
}

/// The bucket that pays `mana` and the state after the charge: the
/// originator's bucket for the contract, if there is a contract and that
/// bucket has enough, else the originator's general bucket, if it has enough.
pub open spec fn spec_try_charge_mana(
    state: StateMap,
    block_index: BlockIndex,
    originator: Seq<char>,
    contract_id: Option<Seq<char>>,
    mana: Mana,
) -> Option<(AccountingInfoView, StateMap)> {
    let scoped = match contract_id {
        Some(c) => spec_charge_bucket(state, block_index, spec_scoped(originator, c), mana),
        None => None,
    };
    match scoped {
        Some(charged) => Some((spec_scoped(originator, contract_id.unwrap()), charged)),
        None => match spec_charge_bucket(state, block_index, spec_general(originator), mana) {
            Some(charged) => Some((spec_general(originator), charged)),
            None => None,
        },
    }
}

/// Charges `mana` to the bucket `info`, if it exists and has that much.
fn charge_bucket(
    state_update: &mut StateDbUpdate,
    block_index: BlockIndex,
    info: &AccountingInfo,
    mana: Mana,
) -> (charged: bool)
    requires
        old(state_update).wf(),
    ensures
        only_staged(old(state_update), final(state_update)),
        match spec_charge_bucket(old(state_update)@, block_index, info@, mana) {
            Some(state) => charged && final(state_update)@ == state,
            None => !charged && final(state_update)@ == old(state_update)@,
        },
{
    let config = TxStakeConfig::default();
    match get_tx_stake(state_update, info) {
        Some(mut bucket) => {
            bucket.update(block_index, &config);
            if bucket.available_mana(&config) >= mana as u64 {
                bucket.charge_mana(mana);
                set_tx_stake(state_update, info, &bucket);
                true
            } else {
                false
            }
        },
        None => false,
    }
}

/// Charges `mana` for a transaction of `originator`: to the bucket for
/// `contract_id` first, where there is one, then to the general bucket.
/// Returns the bucket that paid, or `None` where neither has enough.
pub fn try_charge_mana(
    state_update: &mut StateDbUpdate,
    block_index: BlockIndex,
    originator: &AccountId,
    contract_id: &Option<AccountId>,
    mana: Mana,
) -> (r: Option<AccountingInfo>)
    requires
        old(state_update).wf(),
    ensures
        only_staged(old(state_update), final(state_update)),
        match spec_try_charge_mana(
            old(state_update)@,
            block_index,
            originator@,
            crate::bytes::opt_chars(*contract_id),
            mana,
        ) {
            Some((info, state)) => r is Some && r.unwrap()@ == info && final(state_update)@
                == state,
            None => r is None && final(state_update)@ == old(state_update)@,
        },
{
    if let Some(contract_id) = contract_id {
        let scoped = AccountingInfo {
            originator: originator.clone(),
            contract_id: Some(contract_id.clone()),
        };
        if charge_bucket(state_update, block_index, &scoped, mana) {
            return Some(scoped);
        }
    }
    let general = AccountingInfo { originator: originator.clone(), contract_id: None };
    if charge_bucket(state_update, block_index, &general, mana) {
        Some(general)
    } else {
        None
    }
}

} // verus!
