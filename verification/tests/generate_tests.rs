use keygen::engine::generate;
use keygen::identity::collect_identity;
use keygen::policy::{KeyGenConfig, KeyRole, RsaBits, SubkeyValidity};

const DAY: u64 = 24 * 60 * 60;

// The end-to-end scenario: a 4096-bit bundle for Clark Kent with a
// 366-day subkey validity window, generated by the real engine.
#[test]
fn generates_clark_kent_bundle() {
    let (id, pass) = collect_identity(
        Some(b"Clark Kent\n".to_vec()),
        Some(b"kent@dailyplanet.com\n".to_vec()),
        Some(b"1-aM-k4l-3L\n".to_vec()),
    )
    .unwrap();
    let gen_time: u64 = 1_700_000_000;
    let window: u64 = 366 * DAY;
    let config = KeyGenConfig {
        bits: RsaBits::Rsa4096,
        subkey_validity: SubkeyValidity::Bounded(window),
    };
    let (bundle, revocation) = generate(id, pass, &config, gen_time).unwrap();

    // one master, certify-only, 4096-bit, never expiring
    let plan = bundle.plan();
    assert_eq!(plan.master.role, KeyRole::Master);
    assert_eq!(plan.master.bit_length, 4096);
    assert!(plan.master.caps.certify && !plan.master.caps.sign);
    assert_eq!(plan.master.expiration, None);

    // three subkeys: sign, encrypt, authenticate, each 4096-bit and
    // expiring within a day of generation time plus the window
    assert_eq!(plan.subkeys.len(), 3);
    assert!(plan.subkeys[0].caps.sign);
    assert!(plan.subkeys[1].caps.encrypt_transport && plan.subkeys[1].caps.encrypt_rest);
    assert!(plan.subkeys[2].caps.authenticate);
    for k in &plan.subkeys {
        assert_eq!(k.bit_length, 4096);
        let e = k.expiration.expect("subkey must expire");
        assert!(e > gen_time + 365 * DAY);
        assert!(e < gen_time + 367 * DAY);
    }

    // the revocation is issued by the master key
    let fp = bundle.fingerprint_hex();
    assert!(!fp.is_empty());
    assert_eq!(fp, revocation.issuer_fingerprint_hex());

    // both artifacts serialize to nonempty binary encodings, and the
    // revocation is not embedded in the bundle
    let key_bytes = bundle.to_bytes().unwrap();
    let rev_bytes = revocation.to_bytes().unwrap();
    assert!(!key_bytes.is_empty());
    assert!(!rev_bytes.is_empty());
    assert!(key_bytes.len() > rev_bytes.len());
}

#[test]
fn engine_rejects_address_its_grammar_refuses() {
    // passes the collector's syntactic check but not the engine's
    // addr-spec grammar
    let (id, pass) = collect_identity(
        Some(b"Clark Kent\n".to_vec()),
        Some(b"kent@daily,planet\n".to_vec()),
        Some(b"pw\n".to_vec()),
    )
    .unwrap();
    let config = KeyGenConfig {
        bits: RsaBits::Rsa3072,
        subkey_validity: SubkeyValidity::Unbounded,
    };
    match generate(id, pass, &config, 1_700_000_000) {
        Ok(_) => panic!("the engine must reject this address"),
        Err(err) => assert!(err.is_invalid_identity()),
    }
}
