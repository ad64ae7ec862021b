use keygen::caps::CapabilitySet;
use keygen::records::{
    count_records, master_fingerprint, parse_record, parse_records, render_record,
    ParseError, RecordType,
};

fn lines(dump: &[&str]) -> Vec<Vec<u8>> {
    dump.iter().map(|l| l.as_bytes().to_vec()).collect()
}

#[test]
fn parse_secret_key_line_fields() {
    let line = b"sec:u:4096:1:AABB00112233CCDD:1700000000::::::cSEA:::::";
    let rec = parse_record(line).unwrap();
    assert_eq!(rec.record_type(), RecordType::SecretKey);
    assert_eq!(rec.key_length(), Some(4096));
    assert_eq!(rec.pk_algorithm(), Some(1));
    assert_eq!(rec.expiration(), None);
    let (own, whole) = rec.capability_sets().unwrap();
    assert!(own.certify && !own.sign && !own.encrypt_transport && !own.authenticate);
    assert!(whole.sign && whole.encrypt_transport && whole.encrypt_rest && whole.authenticate);
}

#[test]
fn parse_subkey_line_with_expiration() {
    let line = b"ssb::4096:1:0011223344556677:1700000000:1731628800:::::s::::::";
    let rec = parse_record(line).unwrap();
    assert_eq!(rec.record_type(), RecordType::SecretSubkey);
    assert_eq!(rec.key_length(), Some(4096));
    assert_eq!(rec.expiration(), Some(1_731_628_800));
    let (own, _) = rec.capability_sets().unwrap();
    assert!(own.sign && !own.certify && !own.encrypt_transport && !own.authenticate);
}

#[test]
fn parse_fingerprint_line_text() {
    let line = b"fpr:::::::::0123456789ABCDEF0123456789ABCDEF01234567:";
    let rec = parse_record(line).unwrap();
    assert_eq!(rec.record_type(), RecordType::Fingerprint);
    assert_eq!(
        rec.identity_or_fingerprint_text(),
        b"0123456789ABCDEF0123456789ABCDEF01234567".to_vec()
    );
}

#[test]
fn unknown_record_type_is_reported() {
    let r = parse_record(b"tru::1:1700000000:0:3:1:5");
    assert_eq!(r.unwrap_err(), ParseError::UnknownRecordType);
}

#[test]
fn malformed_capability_is_fatal() {
    let line = b"sec:u:4096:1:AABB00112233CCDD:1700000000::::::cQ:::::";
    let rec = parse_record(line).unwrap();
    assert_eq!(rec.capability_sets().unwrap_err(), ParseError::MalformedCapability);
}

#[test]
fn empty_and_missing_fields_read_as_absent() {
    let rec = parse_record(b"sec").unwrap();
    assert_eq!(rec.key_length(), None);
    assert_eq!(rec.pk_algorithm(), None);
    assert_eq!(rec.expiration(), None);
    assert_eq!(rec.identity_or_fingerprint_text(), Vec::<u8>::new());
    assert_eq!(rec.issuer_fingerprint(), None);
    // an empty capability field decodes to empty sets, not an error
    let (own, whole) = rec.capability_sets().unwrap();
    assert!(!own.certify && !whole.certify);
}

#[test]
fn non_numeric_number_field_reads_as_absent() {
    let rec = parse_record(b"sec::40x6:::::").unwrap();
    assert_eq!(rec.key_length(), None);
}

#[test]
fn parse_records_filters_unknown_lines() {
    let dump = lines(&[
        "tru::1:1700000000:0:3:1:5",
        "sec:u:4096:1:AABB00112233CCDD:1700000000::::::cSEA:::::",
        "fpr:::::::::0123456789ABCDEF0123456789ABCDEF01234567:",
        "grp:::::::::FFFFFFFFFFFFFFFFFFFFFFFFFFFFFFFFFFFFFFFF:",
        "uid:u::::1700000000::AABBCC::Clark Kent <kent@dailyplanet.com>::::::::::0:",
    ]);
    let records = parse_records(&dump);
    assert_eq!(records.len(), 3);
    assert_eq!(records[0].record_type(), RecordType::SecretKey);
    assert_eq!(records[1].record_type(), RecordType::Fingerprint);
    assert_eq!(records[2].record_type(), RecordType::UserId);
}

#[test]
fn master_fingerprint_is_read_by_adjacency() {
    let dump = lines(&[
        "sec:u:4096:1:AABB00112233CCDD:1700000000::::::cSEA:::::",
        "fpr:::::::::0123456789ABCDEF0123456789ABCDEF01234567:",
        "ssb::4096:1:0011223344556677:1700000000:1731628800:::::s::::::",
        "fpr:::::::::9999999999999999999999999999999999999999:",
    ]);
    let records = parse_records(&dump);
    assert_eq!(
        master_fingerprint(&records),
        Some(b"0123456789ABCDEF0123456789ABCDEF01234567".to_vec())
    );
    assert_eq!(count_records(&records, RecordType::SecretKey), 1);
    assert_eq!(count_records(&records, RecordType::SecretSubkey), 1);
    assert_eq!(count_records(&records, RecordType::Fingerprint), 2);
}

#[test]
fn master_fingerprint_absent_without_adjacent_fingerprint_record() {
    let dump = lines(&[
        "sec:u:4096:1:AABB00112233CCDD:1700000000::::::cSEA:::::",
        "ssb::4096:1:0011223344556677:1700000000:1731628800:::::s::::::",
    ]);
    let records = parse_records(&dump);
    assert_eq!(master_fingerprint(&records), None);
}

#[test]
fn rendered_record_parses_back_to_the_same_content() {
    let own = CapabilitySet {
        certify: false,
        sign: true,
        encrypt_transport: false,
        encrypt_rest: false,
        authenticate: false,
    };
    let whole = CapabilitySet {
        certify: true,
        sign: true,
        encrypt_transport: true,
        encrypt_rest: true,
        authenticate: true,
    };
    let text = b"0123456789ABCDEF0123456789ABCDEF01234567".to_vec();
    let issuer = b"0123456789ABCDEF0123456789ABCDEF01234567".to_vec();
    let line = render_record(
        RecordType::SecretSubkey,
        Some(4096),
        Some(1),
        Some(1_731_628_800),
        &text,
        &own,
        &whole,
        &issuer,
    );
    assert_eq!(
        line,
        b"ssb::4096:1:::1731628800:::0123456789ABCDEF0123456789ABCDEF01234567::sCSEA:0123456789ABCDEF0123456789ABCDEF01234567"
            .to_vec()
    );
    let rec = parse_record(&line).unwrap();
    assert_eq!(rec.record_type(), RecordType::SecretSubkey);
    assert_eq!(rec.key_length(), Some(4096));
    assert_eq!(rec.pk_algorithm(), Some(1));
    assert_eq!(rec.expiration(), Some(1_731_628_800));
    assert_eq!(rec.identity_or_fingerprint_text(), text);
    let (own2, whole2) = rec.capability_sets().unwrap();
    assert_eq!(own2, own);
    assert_eq!(whole2, whole);
    assert_eq!(rec.issuer_fingerprint(), Some(issuer));
}

#[test]
fn rendered_revocation_record_round_trips() {
    let own = CapabilitySet {
        certify: false,
        sign: false,
        encrypt_transport: false,
        encrypt_rest: false,
        authenticate: false,
    };
    let issuer = b"AABBCCDDEEFF00112233445566778899AABBCCDD".to_vec();
    let line = render_record(
        RecordType::StandaloneRevocation,
        None,
        Some(1),
        None,
        &Vec::new(),
        &own,
        &own,
        &issuer,
    );
    let rec = parse_record(&line).unwrap();
    assert_eq!(rec.record_type(), RecordType::StandaloneRevocation);
    assert_eq!(rec.key_length(), None);
    assert_eq!(rec.expiration(), None);
    assert_eq!(rec.issuer_fingerprint(), Some(issuer));
}

#[test]
fn revocation_dump_check_accepts_single_matching_record() {
    let fp = b"0123456789ABCDEF0123456789ABCDEF01234567".to_vec();
    let empty_caps = CapabilitySet {
        certify: false,
        sign: false,
        encrypt_transport: false,
        encrypt_rest: false,
        authenticate: false,
    };
    let line = render_record(
        RecordType::StandaloneRevocation,
        None,
        Some(1),
        None,
        &Vec::new(),
        &empty_caps,
        &empty_caps,
        &fp,
    );
    let records = parse_records(&vec![line]);
    assert!(keygen::records::revocation_dump_matches(&records, &fp));
}

#[test]
fn revocation_dump_check_rejects_wrong_issuer_or_extra_records() {
    let fp = b"0123456789ABCDEF0123456789ABCDEF01234567".to_vec();
    let other = b"9999999999999999999999999999999999999999".to_vec();
    let empty_caps = CapabilitySet {
        certify: false,
        sign: false,
        encrypt_transport: false,
        encrypt_rest: false,
        authenticate: false,
    };
    let line = render_record(
        RecordType::StandaloneRevocation,
        None,
        Some(1),
        None,
        &Vec::new(),
        &empty_caps,
        &empty_caps,
        &fp,
    );
    let records = parse_records(&vec![line.clone()]);
    assert!(!keygen::records::revocation_dump_matches(&records, &other));
    let two = parse_records(&vec![line.clone(), line]);
    assert!(!keygen::records::revocation_dump_matches(&two, &fp));
}
