use keygen::caps::{decode_capability_field, encode_capability_field, CapabilitySet};

fn set(certify: bool, sign: bool, encrypt: bool, authenticate: bool) -> CapabilitySet {
    CapabilitySet {
        certify,
        sign,
        encrypt_transport: encrypt,
        encrypt_rest: encrypt,
        authenticate,
    }
}

#[test]
fn decode_own_and_whole_letters() {
    let (own, whole) = decode_capability_field(b"cSEA").unwrap();
    assert_eq!(own, set(true, false, false, false));
    assert_eq!(whole, set(false, true, true, true));
}

#[test]
fn decode_empty_field_is_empty_sets() {
    let (own, whole) = decode_capability_field(b"").unwrap();
    assert_eq!(own, set(false, false, false, false));
    assert_eq!(whole, set(false, false, false, false));
}

#[test]
fn decode_rejects_unknown_letter() {
    assert!(decode_capability_field(b"csx").is_none());
    assert!(decode_capability_field(b"D").is_none());
}

#[test]
fn encode_then_decode_recovers_sets() {
    let own = set(false, true, false, false);
    let whole = set(true, true, true, true);
    let field = encode_capability_field(&own, &whole);
    assert_eq!(field, b"sCSEA".to_vec());
    let (own2, whole2) = decode_capability_field(&field).unwrap();
    assert_eq!(own2, own);
    assert_eq!(whole2, whole);
}

#[test]
fn encode_certify_only() {
    let own = set(true, false, false, false);
    let whole = set(false, false, false, false);
    assert_eq!(encode_capability_field(&own, &whole), b"c".to_vec());
}
