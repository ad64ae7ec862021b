use keygen::policy::{plan_for, KeyGenConfig, KeyRole, RsaBits, SubkeyValidity};

const DAY: u64 = 24 * 60 * 60;

#[test]
fn plan_has_certify_only_master_without_expiration() {
    let config = KeyGenConfig {
        bits: RsaBits::Rsa4096,
        subkey_validity: SubkeyValidity::Bounded(366 * DAY),
    };
    let plan = plan_for(&config, 1_700_000_000);
    assert_eq!(plan.master.role, KeyRole::Master);
    assert_eq!(plan.master.bit_length, 4096);
    assert!(plan.master.caps.certify);
    assert!(!plan.master.caps.sign);
    assert!(!plan.master.caps.encrypt_transport);
    assert!(!plan.master.caps.encrypt_rest);
    assert!(!plan.master.caps.authenticate);
    assert_eq!(plan.master.expiration, None);
}

#[test]
fn plan_has_three_disjoint_single_purpose_subkeys() {
    let config = KeyGenConfig {
        bits: RsaBits::Rsa4096,
        subkey_validity: SubkeyValidity::Bounded(366 * DAY),
    };
    let plan = plan_for(&config, 1_700_000_000);
    assert_eq!(plan.subkeys.len(), 3);
    let sign = &plan.subkeys[0];
    let encrypt = &plan.subkeys[1];
    let auth = &plan.subkeys[2];
    assert!(sign.caps.sign && !sign.caps.certify && !sign.caps.encrypt_transport
        && !sign.caps.encrypt_rest && !sign.caps.authenticate);
    assert!(encrypt.caps.encrypt_transport && encrypt.caps.encrypt_rest
        && !encrypt.caps.certify && !encrypt.caps.sign && !encrypt.caps.authenticate);
    assert!(auth.caps.authenticate && !auth.caps.certify && !auth.caps.sign
        && !auth.caps.encrypt_transport && !auth.caps.encrypt_rest);
    for k in &plan.subkeys {
        assert_eq!(k.role, KeyRole::Subkey);
        assert_eq!(k.bit_length, 4096);
    }
    // whole-key view: master + subkeys together hold every capability
    assert!(plan.master.caps.certify && sign.caps.sign
        && encrypt.caps.encrypt_transport && encrypt.caps.encrypt_rest
        && auth.caps.authenticate);
}

#[test]
fn bounded_validity_expires_subkeys_at_generation_plus_window() {
    let gen_time: u64 = 1_700_000_000;
    let window: u64 = 366 * DAY;
    let config = KeyGenConfig {
        bits: RsaBits::Rsa3072,
        subkey_validity: SubkeyValidity::Bounded(window),
    };
    let plan = plan_for(&config, gen_time);
    for k in &plan.subkeys {
        let e = k.expiration.expect("subkey must expire");
        assert_eq!(e, gen_time + window);
        assert!(e > gen_time + window - DAY);
        assert!(e < gen_time + window + DAY);
        // still valid in 365 days, no longer valid in 367 days
        assert!(e > gen_time + 365 * DAY);
        assert!(e < gen_time + 367 * DAY);
    }
    assert_eq!(plan.master.bit_length, 3072);
}

#[test]
fn unbounded_validity_leaves_subkeys_without_expiration() {
    let config = KeyGenConfig {
        bits: RsaBits::Rsa4096,
        subkey_validity: SubkeyValidity::Unbounded,
    };
    let plan = plan_for(&config, 42);
    for k in &plan.subkeys {
        assert_eq!(k.expiration, None);
    }
}
