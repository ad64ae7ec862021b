//! The key-generation policy: what keys a bundle holds, what capability and
//! bit length each gets, and what expiration each carries.
//!
//! The policy is explicit configuration: an RSA bit length and a subkey
//! validity window.  From a configuration and a generation time the policy
//! produces a plan: one certification-only master key without expiration,
//! and three subkeys, in the fixed order sign, encrypt, authenticate, each
//! expiring at generation time plus the validity window, or never.

use vstd::prelude::*;

use crate::caps::{
    cap_auth, cap_certify, cap_disjoint, cap_encrypt, cap_full, cap_sign, cap_union, CapabilitySet,
};

verus! {

/// The RSA modulus sizes the policy recognises.
#[derive(Clone, Copy, PartialEq, Eq, Structural, Debug)]
pub enum RsaBits {
    Rsa3072,
    Rsa4096,
}

/// The number of bits an `RsaBits` choice selects.
pub open spec fn bit_length_of(b: RsaBits) -> u32 {
    match b {
        RsaBits::Rsa3072 => 3072,
        RsaBits::Rsa4096 => 4096,
    }
}

impl RsaBits {
    /// The number of bits this choice selects.
    pub fn bit_length(&self) -> (r: u32)
        ensures
            r == bit_length_of(*self),
    {
        match self {
            RsaBits::Rsa3072 => 3072,
            RsaBits::Rsa4096 => 4096,
        }
    }
}

/// How long a subkey stays valid: forever, or for a window in seconds.
#[derive(Clone, Copy, PartialEq, Eq, Structural, Debug)]
pub enum SubkeyValidity {
    Unbounded,
    Bounded(u64),
}

/// The two configuration axes of the key-generation policy.
#[derive(Clone, Copy, PartialEq, Eq, Structural, Debug)]
pub struct KeyGenConfig {
    pub bits: RsaBits,
    pub subkey_validity: SubkeyValidity,
}

/// Whether a key is the bundle's master key or one of its subkeys.
#[derive(Clone, Copy, PartialEq, Eq, Structural, Debug)]
pub enum KeyRole {
    Master,
    Subkey,
}

/// The planned attributes of one key of the bundle.
#[derive(Clone, Copy, PartialEq, Eq, Debug)]
pub struct KeySpec {
    pub role: KeyRole,
    pub bit_length: u32,
    pub caps: CapabilitySet,
    pub expiration: Option<u64>,
}

/// The planned topology of a whole bundle: the master key and its subkeys.
#[derive(Debug)]
pub struct KeyPlan {
    pub master: KeySpec,
    pub subkeys: Vec<KeySpec>,
}

/// The validity window in seconds that the engine is configured with.
pub open spec fn validity_seconds(v: SubkeyValidity) -> Option<u64> {
    match v {
        SubkeyValidity::Unbounded => None,
        SubkeyValidity::Bounded(d) => Some(d),
    }
}

/// The absolute expiration a subkey receives under validity `v` when
/// generation happens at `gen_time` (seconds since the epoch).
pub open spec fn subkey_expiration(v: SubkeyValidity, gen_time: u64) -> Option<u64> {
    match v {
        SubkeyValidity::Unbounded => None,
        SubkeyValidity::Bounded(d) => Some((gen_time + d) as u64),
    }
}

/// A bounded validity window must not push the expiration past what a
/// 64-bit epoch second can hold.
pub open spec fn gen_time_in_range(v: SubkeyValidity, gen_time: u64) -> bool {
    match v {
        SubkeyValidity::Unbounded => true,
        SubkeyValidity::Bounded(d) => gen_time + d <= u64::MAX,
    }
}

/// What the policy promises of a plan built from `config` at `gen_time`.
pub open spec fn plan_ok(p: KeyPlan, config: KeyGenConfig, gen_time: u64) -> bool {
    &&& p.master.role == KeyRole::Master
    &&& p.master.bit_length == bit_length_of(config.bits)
    &&& p.master.caps == cap_certify()
    &&& p.master.expiration is None
    &&& p.subkeys@.len() == 3
    &&& p.subkeys@[0].caps == cap_sign()
    &&& p.subkeys@[1].caps == cap_encrypt()
    &&& p.subkeys@[2].caps == cap_auth()
    &&& p.subkeys@[0].role == KeyRole::Subkey
    &&& p.subkeys@[1].role == KeyRole::Subkey
    &&& p.subkeys@[2].role == KeyRole::Subkey
    &&& p.subkeys@[0].bit_length == bit_length_of(config.bits)
    &&& p.subkeys@[1].bit_length == bit_length_of(config.bits)
    &&& p.subkeys@[2].bit_length == bit_length_of(config.bits)
    &&& p.subkeys@[0].expiration == subkey_expiration(config.subkey_validity, gen_time)
    &&& p.subkeys@[1].expiration == subkey_expiration(config.subkey_validity, gen_time)
    &&& p.subkeys@[2].expiration == subkey_expiration(config.subkey_validity, gen_time)
}

/// Build the key plan for `config` at generation time `gen_time`.
pub fn plan_for(config: &KeyGenConfig, gen_time: u64) -> (p: KeyPlan)
    requires
        gen_time_in_range(config.subkey_validity, gen_time),
    ensures
        plan_ok(p, *config, gen_time),
{
    let bits = config.bits.bit_length();
    let expiration: Option<u64> = match config.subkey_validity {
        SubkeyValidity::Unbounded => None,
        SubkeyValidity::Bounded(d) => Some(gen_time + d),
    };
    let master = KeySpec {
        role: KeyRole::Master,
        bit_length: bits,
        caps: CapabilitySet {
            certify: true,
            sign: false,
            encrypt_transport: false,
            encrypt_rest: false,
            authenticate: false,
        },
        expiration: None,
    };
    let mut subkeys: Vec<KeySpec> = Vec::new();
    subkeys.push(
        KeySpec {
            role: KeyRole::Subkey,
            bit_length: bits,
            caps: CapabilitySet {
                certify: false,
                sign: true,
                encrypt_transport: false,
                encrypt_rest: false,
                authenticate: false,
            },
            expiration,
        },
    );
    subkeys.push(
        KeySpec {
            role: KeyRole::Subkey,
            bit_length: bits,
            caps: CapabilitySet {
                certify: false,
                sign: false,
                encrypt_transport: true,
                encrypt_rest: true,
                authenticate: false,
            },
            expiration,
        },
    );
    subkeys.push(
        KeySpec {
            role: KeyRole::Subkey,
            bit_length: bits,
            caps: CapabilitySet {
                certify: false,
                sign: false,
                encrypt_transport: false,
                encrypt_rest: false,
                authenticate: true,
            },
            expiration,
        },
    );
    KeyPlan { master, subkeys }
}

/// The bundle's capability partition: the master key certifies and does
/// nothing else; the three subkeys hold pairwise disjoint capability sets,
/// none of which certifies; and master and subkeys together hold every
/// capability.
pub proof fn lemma_plan_capability_partition(p: KeyPlan, config: KeyGenConfig, gen_time: u64)
    requires
        plan_ok(p, config, gen_time),
    ensures
        p.master.caps == cap_certify(),
        cap_disjoint(p.subkeys@[0].caps, p.subkeys@[1].caps),
        cap_disjoint(p.subkeys@[0].caps, p.subkeys@[2].caps),
        cap_disjoint(p.subkeys@[1].caps, p.subkeys@[2].caps),
        cap_disjoint(p.master.caps, p.subkeys@[0].caps),
        cap_disjoint(p.master.caps, p.subkeys@[1].caps),
        cap_disjoint(p.master.caps, p.subkeys@[2].caps),
        cap_union(
            cap_union(cap_union(p.master.caps, p.subkeys@[0].caps), p.subkeys@[1].caps),
            p.subkeys@[2].caps,
        ) == cap_full(),
{
}

/// The expiration policy: the master key never expires; under a bounded
/// validity window of `d` seconds every subkey expires exactly at
/// `gen_time + d`, which lies strictly between `gen_time + d` minus one day
/// and `gen_time + d` plus one day; under an unbounded window no subkey
/// expires.
pub proof fn lemma_plan_expiration_policy(p: KeyPlan, config: KeyGenConfig, gen_time: u64)
    requires
        plan_ok(p, config, gen_time),
        gen_time_in_range(config.subkey_validity, gen_time),
    ensures
        p.master.expiration is None,
        forall|i: int|
            0 <= i < 3 ==> match config.subkey_validity {
                SubkeyValidity::Bounded(d) => {
                    &&& #[trigger] p.subkeys@[i].expiration == Some((gen_time + d) as u64)
                    &&& gen_time + d - 86400 < p.subkeys@[i].expiration->0
                    &&& p.subkeys@[i].expiration->0 < gen_time + d + 86400
                },
                SubkeyValidity::Unbounded => p.subkeys@[i].expiration is None,
            },
{
}

} // verus!
