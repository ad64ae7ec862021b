use keygen::identity::{check_email, collect_identity, trim_line, InputError, Passphrase};

#[test]
fn collects_three_trimmed_fields() {
    let (id, pass) = collect_identity(
        Some(b"Clark Kent\n".to_vec()),
        Some(b"kent@dailyplanet.com\n".to_vec()),
        Some(b"1-aM-k4l-3L\n".to_vec()),
    )
    .unwrap();
    assert_eq!(id.name_bytes(), &b"Clark Kent".to_vec());
    assert_eq!(id.email_bytes(), &b"kent@dailyplanet.com".to_vec());
    assert_eq!(pass.into_bytes(), b"1-aM-k4l-3L".to_vec());
}

#[test]
fn closed_input_is_truncated() {
    let r = collect_identity(Some(b"Clark Kent\n".to_vec()), None, None);
    assert_eq!(r.unwrap_err(), InputError::Truncated);
}

#[test]
fn missing_at_sign_is_an_input_error() {
    let r = collect_identity(
        Some(b"Clark Kent\n".to_vec()),
        Some(b"kent.dailyplanet.com\n".to_vec()),
        Some(b"1-aM-k4l-3L\n".to_vec()),
    );
    assert_eq!(r.unwrap_err(), InputError::InvalidAddress);
}

#[test]
fn two_at_signs_are_an_input_error() {
    let r = collect_identity(
        Some(b"Clark Kent\n".to_vec()),
        Some(b"kent@daily@planet.com\n".to_vec()),
        Some(b"pw\n".to_vec()),
    );
    assert_eq!(r.unwrap_err(), InputError::InvalidAddress);
}

#[test]
fn email_syntax_checks() {
    assert!(check_email(b"kent@dailyplanet.com"));
    assert!(!check_email(b"kent"));
    assert!(!check_email(b"@dailyplanet.com"));
    assert!(!check_email(b"kent@"));
    assert!(!check_email(b"kent kent@dailyplanet.com"));
    assert!(!check_email(b""));
}

#[test]
fn trim_strips_one_line_break_only() {
    let mut v = b"abc\n".to_vec();
    trim_line(&mut v);
    assert_eq!(v, b"abc".to_vec());
    let mut v = b"abc\r\n".to_vec();
    trim_line(&mut v);
    assert_eq!(v, b"abc".to_vec());
    let mut v = b"abc".to_vec();
    trim_line(&mut v);
    assert_eq!(v, b"abc".to_vec());
    let mut v = b"abc\n\n".to_vec();
    trim_line(&mut v);
    assert_eq!(v, b"abc\n".to_vec());
    let mut v = b"  abc  \n".to_vec();
    trim_line(&mut v);
    assert_eq!(v, b"  abc  ".to_vec(), "no whitespace normalization beyond the line break");
}

#[test]
fn wiped_passphrase_holds_only_zeros() {
    let mut p = Passphrase::new(b"1-aM-k4l-3L".to_vec());
    assert_eq!(p.byte_len(), 11);
    p.wipe();
    assert_eq!(p.into_bytes(), vec![0u8; 11]);
}
