//! The mana ledger: one bucket per originator and contract.
//!
//! A bucket grants mana in proportion to its active stake. Mana that was
//! charged comes back with the blocks that pass, and gas that was burnt
//! is worked off in the same way. All amounts saturate at the bounds of
//! their type.
use crate::codec::{dec_u64, enc_u64, lemma_u64_roundtrip, read_u64, write_u64, Parsed};
use crate::types::{Balance, BlockIndex, Gas, Mana};
use vstd::prelude::*;

verus! {

/// `x` cut down to what 64 bits hold.
pub open spec fn cap(x: int) -> u64 {
    if x > u64::MAX {
        u64::MAX
    } else if x < 0 {
        0
    } else {
        x as u64
    }
}

fn mul_cap(a: u64, b: u64) -> (r: u64)
    ensures
        r == cap(a * b),
{
    match a.checked_mul(b) {
        Some(p) => p,
        None => u64::MAX,
    }
}

/// How much mana a coin grants and how fast mana and gas come back.
#[derive(Clone, Copy, Debug, PartialEq, Eq, Structural)]
pub struct TxStakeConfig {
    /// Mana granted per coin of active stake.
    pub mana_per_coin: u64,
    /// Mana that comes back per block and coin of active stake.
    pub mana_regen_per_block_per_coin: u64,
    /// Gas that is worked off per block and coin of active stake.
    pub gas_regen_per_block_per_coin: u64,
}

/// The configuration that the runtime uses.
pub open spec fn spec_default_config() -> TxStakeConfig {
    TxStakeConfig {
        mana_per_coin: 1,
        mana_regen_per_block_per_coin: 1,
        gas_regen_per_block_per_coin: 1,
    }
}

impl Default for TxStakeConfig {
    fn default() -> (r: Self)
        ensures
            r == spec_default_config(),
    {
        TxStakeConfig {
            mana_per_coin: 1,
            mana_regen_per_block_per_coin: 1,
            gas_regen_per_block_per_coin: 1,
        }
    }
}

/// One bucket of the mana ledger.
#[derive(Clone, Copy, Debug, PartialEq, Eq, Structural)]
pub struct TxTotalStake {
    pub active_stake: Balance,
    pub mana_used: u64,
    pub gas_used: Gas,
    pub last_update_block_index: BlockIndex,
}

impl TxTotalStake {
    /// The bucket with no stake, last brought up to date at `block_index`.
    pub open spec fn spec_new(block_index: BlockIndex) -> TxTotalStake {
        TxTotalStake { active_stake: 0, mana_used: 0, gas_used: 0, last_update_block_index: block_index }
    }

    /// The mana that the active stake grants.
    pub open spec fn spec_total_mana(self, config: TxStakeConfig) -> u64 {
        cap(self.active_stake * config.mana_per_coin)
    }

    /// The mana that can still be charged.
    pub open spec fn spec_available_mana(self, config: TxStakeConfig) -> u64 {
        let total = self.spec_total_mana(config);
        if self.mana_used >= total {
            0
        } else {
            (total - self.mana_used) as u64
        }
    }

    /// What comes back at the rate `rate` over `elapsed` blocks.
    pub open spec fn spec_regenerated(self, elapsed: u64, rate: u64) -> u64 {
        cap(cap(elapsed * self.active_stake) * rate)
    }

    /// The bucket brought up to date at `block_index`.
    pub open spec fn spec_update(self, block_index: BlockIndex, config: TxStakeConfig) -> TxTotalStake {
        if block_index <= self.last_update_block_index {
            self
        } else {
            let elapsed = (block_index - self.last_update_block_index) as u64;
            TxTotalStake {
                active_stake: self.active_stake,
                mana_used: cap(
                    self.mana_used - self.spec_regenerated(
                        elapsed,
                        config.mana_regen_per_block_per_coin,
                    ),
                ),
                gas_used: cap(
                    self.gas_used - self.spec_regenerated(
                        elapsed,
                        config.gas_regen_per_block_per_coin,
                    ),
                ),
                last_update_block_index: block_index,
            }
        }
    }

    /// The bucket after `mana` was charged.
    pub open spec fn spec_charge_mana(self, mana: Mana) -> TxTotalStake {
        TxTotalStake { mana_used: cap(self.mana_used + mana), ..self }
    }

    /// The bucket after `mana_refund` came back and `gas_used` was burnt.
    pub open spec fn spec_refund_mana_and_charge_gas(self, mana_refund: Mana, gas_used: Gas) -> TxTotalStake {
        TxTotalStake {
            mana_used: cap(self.mana_used - mana_refund),
            gas_used: cap(self.gas_used + gas_used),
            ..self
        }
    }

    /// The bucket with `stake` more active stake.
    pub open spec fn spec_add_active_stake(self, stake: Balance) -> TxTotalStake {
        TxTotalStake { active_stake: cap(self.active_stake + stake), ..self }
    }

    /// The bucket with no stake, last brought up to date at `block_index`.
    pub fn new(block_index: BlockIndex) -> (r: Self)
        ensures
            r == Self::spec_new(block_index),
    {
        TxTotalStake { active_stake: 0, mana_used: 0, gas_used: 0, last_update_block_index: block_index }
    }

    /// The mana that can still be charged.
    pub fn available_mana(&self, config: &TxStakeConfig) -> (r: u64)
        ensures
            r == self.spec_available_mana(*config),
    {
        let total = mul_cap(self.active_stake, config.mana_per_coin);
        total.saturating_sub(self.mana_used)
    }

    /// Brings the bucket up to date at `block_index`: mana and gas come
    /// back for the blocks that passed since the last update.
    pub fn update(&mut self, block_index: BlockIndex, config: &TxStakeConfig)
        ensures
            *final(self) == old(self).spec_update(block_index, *config),
    {
        if block_index <= self.last_update_block_index {
            return ;
        }
        let elapsed = block_index - self.last_update_block_index;
        let per_rate = mul_cap(elapsed, self.active_stake);
        let mana = mul_cap(per_rate, config.mana_regen_per_block_per_coin);
        let gas = mul_cap(per_rate, config.gas_regen_per_block_per_coin);
        self.mana_used = self.mana_used.saturating_sub(mana);
        self.gas_used = self.gas_used.saturating_sub(gas);
        self.last_update_block_index = block_index;
    }

    /// Charges `mana`.
    pub fn charge_mana(&mut self, mana: Mana)
        ensures
            *final(self) == old(self).spec_charge_mana(mana),
    {
        self.mana_used = self.mana_used.saturating_add(mana as u64);
    }

    /// Hands `mana_refund` back and records `gas_used`.
    pub fn refund_mana_and_charge_gas(&mut self, mana_refund: Mana, gas_used: Gas)
        ensures
            *final(self) == old(self).spec_refund_mana_and_charge_gas(mana_refund, gas_used),
    {
        self.mana_used = self.mana_used.saturating_sub(mana_refund as u64);
        self.gas_used = self.gas_used.saturating_add(gas_used);
    }

    /// Adds `stake` to the active stake.
    pub fn add_active_stake(&mut self, stake: Balance)
        ensures
            *final(self) == old(self).spec_add_active_stake(stake),
    {
        self.active_stake = self.active_stake.saturating_add(stake);
    }
}

// ---------------------------------------------------------------------------
// Encoding
// ---------------------------------------------------------------------------
/// The encoding of a mana bucket.
pub open spec fn enc_tx_stake(t: TxTotalStake) -> Seq<u8> {
    enc_u64(t.active_stake) + enc_u64(t.mana_used) + enc_u64(t.gas_used) + enc_u64(
        t.last_update_block_index,
    )
}

/// Reads a mana bucket from the front of `s`: the value, and what follows it.
pub open spec fn dec_tx_stake(s: Seq<u8>) -> Parsed<TxTotalStake> {
    match dec_u64(s) {
        Some((active_stake, r1)) => match dec_u64(r1) {
            Some((mana_used, r2)) => match dec_u64(r2) {
                Some((gas_used, r3)) => match dec_u64(r3) {
                    Some((last_update_block_index, r4)) => Some(
                        (
                            TxTotalStake {
                                active_stake,
                                mana_used,
                                gas_used,
                                last_update_block_index,
                            },
                            r4,
                        ),
                    ),
                    None => None,
                },
                None => None,
            },
            None => None,
        },
        None => None,
    }
}

/// The bucket that `bytes` encode, if they encode one and nothing more.
pub open spec fn spec_decode_tx_stake(bytes: Seq<u8>) -> Option<TxTotalStake> {
    match dec_tx_stake(bytes) {
        Some((t, rest)) => if rest.len() == 0 {
            Some(t)
        } else {
            None
        },
        None => None,
    }
}

/// Decoding gives back what was encoded.
pub proof fn lemma_tx_stake_roundtrip(t: TxTotalStake)
    ensures
        spec_decode_tx_stake(enc_tx_stake(t)) == Some(t),
{
    let e = Seq::<u8>::empty();
    let s3 = enc_u64(t.last_update_block_index) + e;
    let s2 = enc_u64(t.gas_used) + s3;
    let s1 = enc_u64(t.mana_used) + s2;
    lemma_u64_roundtrip(t.active_stake, s1);
    lemma_u64_roundtrip(t.mana_used, s2);
    lemma_u64_roundtrip(t.gas_used, s3);
    lemma_u64_roundtrip(t.last_update_block_index, e);
    assert(enc_tx_stake(t) =~= enc_u64(t.active_stake) + s1);
}

/// The encoding of a mana bucket.
pub fn encode_tx_stake(t: &TxTotalStake) -> (bytes: Vec<u8>)
    ensures
        bytes@ == enc_tx_stake(*t),
{
    let mut out: Vec<u8> = Vec::new();
    write_u64(&mut out, t.active_stake);
    write_u64(&mut out, t.mana_used);
    write_u64(&mut out, t.gas_used);
    write_u64(&mut out, t.last_update_block_index);
    assert(out@ =~= enc_tx_stake(*t));
    out
}

/// Decodes a mana bucket: `None` where the bytes are not the encoding of one.
pub fn decode_tx_stake(bytes: &[u8]) -> (r: Option<TxTotalStake>)
    ensures
        r == spec_decode_tx_stake(bytes@),
{
    assert(bytes@.skip(0) =~= bytes@);
    let (active_stake, pos1) = match read_u64(bytes, 0) {
        Some(x) => x,
        None => {
            return None;
        },
    };
    let (mana_used, pos2) = match read_u64(bytes, pos1) {
        Some(x) => x,
        None => {
            return None;
        },
    };
    let (gas_used, pos3) = match read_u64(bytes, pos2) {
        Some(x) => x,
        None => {
            return None;
        },
    };
    let (last_update_block_index, pos4) = match read_u64(bytes, pos3) {
        Some(x) => x,
        None => {
            return None;
        },
    };
    if pos4 != bytes.len() {
        return None;
    }
    Some(TxTotalStake { active_stake, mana_used, gas_used, last_update_block_index })
}

} // verus!
