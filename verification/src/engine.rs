//! The key policy engine: drive the external OpenPGP engine to generate
//! the planned bundle.
//!
//! The policy itself -- which keys exist, what capability, bit length and
//! expiration each carries -- is the verified plan of `policy`.  The
//! asymmetric-key math, signature computation and packet encoding are the
//! engine's; every call into it goes through a trusted wrapper below, and
//! each wrapper's contract states no more than the engine's own source
//! shows.

use vstd::prelude::*;

use sequoia_openpgp::cert::{Cert, CertBuilder, CipherSuite};
use sequoia_openpgp::crypto::Password;
use sequoia_openpgp::packet::{Signature, UserID};
use sequoia_openpgp::serialize::SerializeInto;
use sequoia_openpgp::types::KeyFlags;

use crate::caps::{cap_auth, cap_encrypt, cap_sign, CapabilitySet};
use crate::identity::{Passphrase, UserIdentity};
use crate::policy::{
    gen_time_in_range, plan_for, plan_ok, validity_seconds, KeyGenConfig, KeyPlan, RsaBits,
    SubkeyValidity,
};

verus! {

/// The engine's certificate type, carried opaquely.
#[verifier::external_type_specification]
#[verifier::external_body]
pub struct ExCert(Cert);

/// The engine's signature type, carried opaquely.
#[verifier::external_type_specification]
#[verifier::external_body]
pub struct ExSignature(Signature);

/// The engine's certificate builder, carried opaquely between the
/// configuration calls below.
#[verifier::external_type_specification]
#[verifier::external_body]
pub struct ExCertBuilder<'a>(CertBuilder<'a>);

/// The engine's cipher-suite choice; declared transparently so that the
/// policy can name the RSA variants itself.
#[verifier::external_type_specification]
pub struct ExCipherSuite(CipherSuite);

/// The engine's protected passphrase store, carried opaquely.
#[verifier::external_type_specification]
#[verifier::external_body]
pub struct ExPassword(Password);

/// The engine's user-id packet, carried opaquely.
#[verifier::external_type_specification]
#[verifier::external_body]
pub struct ExUserID(UserID);

/// The engine's capability flags, built only from a `CapabilitySet`.
#[verifier::external_type_specification]
#[verifier::external_body]
pub struct ExKeyFlags(KeyFlags);

/// The engine's error type, carried opaquely inside `GenError`.
#[verifier::external_type_specification]
#[verifier::external_body]
pub struct ExAnyhowError(anyhow::Error);

/// Whether the engine accepts the given name and address as a user id:
/// the verdict of `UserID::from_address`, a function of its arguments
/// alone.
pub uninterp spec fn uid_ok(name: Seq<u8>, email: Seq<u8>) -> bool;

/// The bit coding this library reads a capability set as: certify, sign,
/// encrypt-for-transport, encrypt-at-rest and authenticate are the five
/// low bits, in that order.
pub open spec fn cap_mask(c: CapabilitySet) -> int {
    (if c.certify {
        1int
    } else {
        0int
    }) + (if c.sign {
        2int
    } else {
        0int
    }) + (if c.encrypt_transport {
        4int
    } else {
        0int
    }) + (if c.encrypt_rest {
        8int
    } else {
        0int
    }) + (if c.authenticate {
        16int
    } else {
        0int
    })
}

/// The capability mask a `KeyFlags` value holds, under this library's bit
/// coding: a function of the flags value alone.
pub uninterp spec fn key_flags_mask(f: KeyFlags) -> int;

/// The (capability mask, validity window) of each subkey blueprint the
/// builder holds, in the order added.
pub uninterp spec fn builder_subkeys(b: CertBuilder<'static>) -> Seq<(int, Option<u64>)>;

/// Relies on sequoia_openpgp::packet::UserID::from_address: builds a user
/// id from a name and an address, rejecting an address that is not a
/// syntactically valid addr-spec; its verdict depends on the name and
/// address alone.
#[verifier::external_body]
fn user_id_from_address(name: &[u8], email: &[u8]) -> (r: Result<UserID, anyhow::Error>)
    ensures
        r is Ok <==> uid_ok(name@, email@),
{
    let n = String::from_utf8_lossy(name).into_owned();
    let e = String::from_utf8_lossy(email).into_owned();
    UserID::from_address(Some(n.as_str()), None, e.as_str())
}

/// Relies on sequoia_openpgp::crypto::Password::from: moves the passphrase
/// bytes into the engine's protected memory.
#[verifier::external_body]
fn password_from_bytes(bytes: Vec<u8>) -> Password {
    Password::from(bytes)
}

/// Relies on sequoia_openpgp::cert::CertBuilder::new: a builder for a
/// certificate whose primary key is certification-capable, with no subkey
/// blueprints yet.
#[verifier::external_body]
fn builder_new() -> (r: CertBuilder<'static>)
    ensures
        builder_subkeys(r) == Seq::<(int, Option<u64>)>::empty(),
{
    CertBuilder::new()
}

/// Relies on sequoia_openpgp::cert::CertBuilder::set_creation_time: the
/// keys and signatures are created at the given time.  The bound keeps the
/// std time addition in the body representable, so it cannot panic.  The
/// subkey blueprints are untouched.
#[verifier::external_body]
fn builder_set_creation_time(b: CertBuilder<'static>, epoch_seconds: u64) -> (r: CertBuilder<
    'static,
>)
    requires
        epoch_seconds <= i64::MAX as u64,
    ensures
        builder_subkeys(r) == builder_subkeys(b),
{
    b.set_creation_time(
        std::time::UNIX_EPOCH + std::time::Duration::from_secs(epoch_seconds),
    )
}

/// Relies on sequoia_openpgp::cert::CertBuilder::set_cipher_suite: selects
/// the algorithm and size of every generated key; the subkey blueprints
/// are untouched.
#[verifier::external_body]
fn builder_set_cipher_suite(b: CertBuilder<'static>, cs: CipherSuite) -> (r: CertBuilder<
    'static,
>)
    ensures
        builder_subkeys(r) == builder_subkeys(b),
{
    b.set_cipher_suite(cs)
}

/// Relies on sequoia_openpgp::types::KeyFlags: each `set_*_to` call grants
/// or withholds exactly the named capability, so the returned flags hold
/// exactly the capabilities of `c`.
#[verifier::external_body]
fn key_flags_for(c: &CapabilitySet) -> (r: KeyFlags)
    ensures
        key_flags_mask(r) == cap_mask(*c),
{
    KeyFlags::empty()
        .set_certification_to(c.certify)
        .set_signing_to(c.sign)
        .set_transport_encryption_to(c.encrypt_transport)
        .set_storage_encryption_to(c.encrypt_rest)
        .set_authentication_to(c.authenticate)
}

/// Relies on sequoia_openpgp::cert::CertBuilder::set_primary_key_flags:
/// the primary key carries exactly the given flags; the subkey blueprints
/// are untouched.
#[verifier::external_body]
fn builder_set_primary_key_flags(b: CertBuilder<'static>, flags: KeyFlags) -> (r: CertBuilder<
    'static,
>)
    ensures
        builder_subkeys(r) == builder_subkeys(b),
{
    b.set_primary_key_flags(flags)
}

/// Relies on sequoia_openpgp::cert::CertBuilder::set_validity_period: the
/// primary key expires after the given window, or never for `None`; the
/// subkey blueprints are untouched.
#[verifier::external_body]
fn builder_set_primary_validity(
    b: CertBuilder<'static>,
    window_seconds: Option<u64>,
) -> (r: CertBuilder<'static>)
    ensures
        builder_subkeys(r) == builder_subkeys(b),
{
    b.set_validity_period(window_seconds.map(std::time::Duration::from_secs))
}

/// Relies on sequoia_openpgp::cert::CertBuilder::set_password: the private
/// key material is wrapped under the given passphrase; the subkey
/// blueprints are untouched.
#[verifier::external_body]
fn builder_set_password(b: CertBuilder<'static>, password: Password) -> (r: CertBuilder<
    'static,
>)
    ensures
        builder_subkeys(r) == builder_subkeys(b),
{
    b.set_password(Some(password))
}

/// Relies on sequoia_openpgp::cert::CertBuilder::add_userid: binds the
/// user id to the certificate; the subkey blueprints are untouched.
#[verifier::external_body]
fn builder_add_userid(b: CertBuilder<'static>, uid: UserID) -> (r: CertBuilder<'static>)
    ensures
        builder_subkeys(r) == builder_subkeys(b),
{
    b.add_userid(uid)
}

/// Relies on sequoia_openpgp::cert::CertBuilder::add_subkey: appends one
/// subkey with exactly the given flags, expiring after the given window;
/// for `None` the subkey inherits the primary key's validity, which this
/// library always sets to none, so it never expires.  Subkeys are
/// generated in the order added.
#[verifier::external_body]
fn builder_add_subkey(
    b: CertBuilder<'static>,
    flags: KeyFlags,
    window_seconds: Option<u64>,
) -> (r: CertBuilder<'static>)
    ensures
        builder_subkeys(r) == builder_subkeys(b).push(
            (key_flags_mask(flags), window_seconds),
        ),
{
    b.add_subkey(flags, window_seconds.map(std::time::Duration::from_secs), None::<CipherSuite>)
}

/// What one generation call hands back.
struct EngineOutput {
    cert: Cert,
    revocation: Signature,
    fingerprint: Vec<u8>,
    issuer_fingerprint: Vec<u8>,
}

/// Relies on sequoia_openpgp::cert::CertBuilder::generate: generates the
/// configured keys and binding signatures and a revocation certificate
/// signed by the primary key, whose issuer fingerprint the engine sets to
/// the primary key's fingerprint; both fingerprints are read back in
/// uppercase hex.
#[verifier::external_body]
fn builder_generate(b: CertBuilder<'static>) -> (r: Result<EngineOutput, anyhow::Error>)
    ensures
        match r {
            Ok(o) => o.issuer_fingerprint@ == o.fingerprint@,
            Err(_) => true,
        },
{
    let (cert, revocation) = b.generate()?;
    let fingerprint = cert.fingerprint().to_hex().into_bytes();
    let issuer_fingerprint = revocation.issuer_fingerprints().next().map(
        |f| f.to_hex().into_bytes(),
    ).unwrap_or_default();
    Ok(EngineOutput { cert, revocation, fingerprint, issuer_fingerprint })
}

/// The transferable-secret-key encoding of a certificate: a function of
/// the certificate alone.
pub uninterp spec fn tsk_bytes_of(c: Cert) -> Seq<u8>;

/// The standalone-signature encoding of a signature: a function of the
/// signature alone.
pub uninterp spec fn sig_bytes_of(s: Signature) -> Seq<u8>;

/// Relies on sequoia_openpgp::serialize::SerializeInto::to_vec on the
/// certificate's transferable-secret-key form: the binary encoding of the
/// whole bundle, secret keys included, a deterministic function of the
/// certificate.
#[verifier::external_body]
fn tsk_to_vec(cert: &Cert) -> (r: Result<Vec<u8>, anyhow::Error>)
    ensures
        match r {
            Ok(v) => v@ == tsk_bytes_of(*cert),
            Err(_) => true,
        },
{
    cert.as_tsk().to_vec()
}

/// Relies on sequoia_openpgp::serialize::SerializeInto::to_vec on a
/// packet: the binary encoding of the revocation signature as a single
/// standalone signature packet, a deterministic function of the
/// signature.
#[verifier::external_body]
fn signature_to_vec(sig: &Signature) -> (r: Result<Vec<u8>, anyhow::Error>)
    ensures
        match r {
            Ok(v) => v@ == sig_bytes_of(*sig),
            Err(_) => true,
        },
{
    sequoia_openpgp::Packet::from(sig.clone()).to_vec()
}

/// Why key generation failed.
#[derive(Debug)]
pub enum GenError {
    /// The identity could not be bound: the engine rejected the address.
    InvalidIdentity,
    /// The engine failed to generate or sign key material, or to encode
    /// an artifact; not locally recoverable.
    CryptoEngineFailure(anyhow::Error),
}

impl GenError {
    /// Whether this is the identity-binding failure.
    pub fn is_invalid_identity(&self) -> (r: bool)
        ensures
            r == (self is InvalidIdentity),
    {
        match self {
            GenError::InvalidIdentity => true,
            GenError::CryptoEngineFailure(_) => false,
        }
    }
}

/// The generated bundle: the engine's certificate, carried opaquely,
/// together with the verified plan it was configured from, the embedded
/// identity, the master key's fingerprint in uppercase hex, and a ghost
/// record of the subkey blueprints that were handed to the engine.
pub struct KeyBundle {
    cert: Cert,
    fingerprint: Vec<u8>,
    plan: KeyPlan,
    identity: UserIdentity,
    configured_subkeys: Ghost<Seq<(int, Option<u64>)>>,
}

impl KeyBundle {
    /// The engine's certificate.
    pub closed spec fn spec_cert(&self) -> Cert {
        self.cert
    }

    /// The plan the engine was configured from.
    pub closed spec fn spec_plan(&self) -> KeyPlan {
        self.plan
    }

    /// The (capability mask, validity window) of each subkey blueprint
    /// handed to the engine, in the order added.
    pub closed spec fn spec_configured_subkeys(&self) -> Seq<(int, Option<u64>)> {
        self.configured_subkeys@
    }

    /// The master key's fingerprint, uppercase hex.
    pub closed spec fn spec_fingerprint(&self) -> Seq<u8> {
        self.fingerprint@
    }

    /// The identity embedded in the bundle.
    pub closed spec fn spec_identity(&self) -> UserIdentity {
        self.identity
    }

    /// The plan the engine was configured from.
    pub fn plan(&self) -> (r: &KeyPlan)
        ensures
            *r == self.spec_plan(),
    {
        &self.plan
    }

    /// The master key's fingerprint, uppercase hex.
    pub fn fingerprint_hex(&self) -> (r: &Vec<u8>)
        ensures
            r@ == self.spec_fingerprint(),
    {
        &self.fingerprint
    }

    /// The identity embedded in the bundle.
    pub fn identity(&self) -> (r: &UserIdentity)
        ensures
            *r == self.spec_identity(),
    {
        &self.identity
    }

    /// The bundle in its transferable-secret-key binary encoding.
    pub fn to_bytes(&self) -> (r: Result<Vec<u8>, GenError>)
        ensures
            match r {
                Ok(v) => v@ == tsk_bytes_of(self.spec_cert()),
                Err(e) => e is CryptoEngineFailure,
            },
    {
        match tsk_to_vec(&self.cert) {
            Ok(v) => Ok(v),
            Err(e) => Err(GenError::CryptoEngineFailure(e)),
        }
    }
}

/// The detached revocation artifact: the engine's standalone revocation
/// signature, carried opaquely, and its issuer fingerprint in uppercase
/// hex.
#[derive(Debug)]
pub struct RevocationArtifact {
    signature: Signature,
    issuer_fingerprint: Vec<u8>,
}

impl RevocationArtifact {
    /// The engine's revocation signature.
    pub closed spec fn spec_signature(&self) -> Signature {
        self.signature
    }

    /// The fingerprint of the key that issued the revocation.
    pub closed spec fn spec_issuer_fingerprint(&self) -> Seq<u8> {
        self.issuer_fingerprint@
    }

    /// The fingerprint of the key that issued the revocation.
    pub fn issuer_fingerprint_hex(&self) -> (r: &Vec<u8>)
        ensures
            r@ == self.spec_issuer_fingerprint(),
    {
        &self.issuer_fingerprint
    }

    /// The revocation in its standalone-signature binary encoding.
    pub fn to_bytes(&self) -> (r: Result<Vec<u8>, GenError>)
        ensures
            match r {
                Ok(v) => v@ == sig_bytes_of(self.spec_signature()),
                Err(e) => e is CryptoEngineFailure,
            },
    {
        match signature_to_vec(&self.signature) {
            Ok(v) => Ok(v),
            Err(e) => Err(GenError::CryptoEngineFailure(e)),
        }
    }
}

/// Generate the key bundle and its detached revocation certificate.
///
/// The bundle holds one certification-only master key without expiration,
/// with the identity bound to it and the private material wrapped under
/// the passphrase, and three subkeys in the fixed order sign, encrypt,
/// authenticate, each with the configured bit length and expiration.  The
/// revocation certificate is issued by the master key and never embedded
/// in the bundle.  The passphrase is consumed: it is either moved into the
/// engine's protected memory or wiped before an error returns.
pub fn generate(
    identity: UserIdentity,
    passphrase: Passphrase,
    config: &KeyGenConfig,
    gen_time: u64,
) -> (r: Result<(KeyBundle, RevocationArtifact), GenError>)
    requires
        gen_time_in_range(config.subkey_validity, gen_time),
        gen_time <= i64::MAX as u64,
    ensures
        match r {
            Ok(p) => {
                &&& uid_ok(identity.spec_name(), identity.spec_email())
                &&& plan_ok(p.0.spec_plan(), *config, gen_time)
                &&& p.0.spec_identity() == identity
                &&& p.0.spec_fingerprint() == p.1.spec_issuer_fingerprint()
                &&& p.0.spec_configured_subkeys() == seq![
                    (cap_mask(cap_sign()), validity_seconds(config.subkey_validity)),
                    (cap_mask(cap_encrypt()), validity_seconds(config.subkey_validity)),
                    (cap_mask(cap_auth()), validity_seconds(config.subkey_validity)),
                ]
            },
            Err(GenError::InvalidIdentity) => !uid_ok(
                identity.spec_name(),
                identity.spec_email(),
            ),
            Err(GenError::CryptoEngineFailure(_)) => uid_ok(
                identity.spec_name(),
                identity.spec_email(),
            ),
        },
{
    let mut passphrase = passphrase;
    let uid = match user_id_from_address(
        identity.name_bytes().as_slice(),
        identity.email_bytes().as_slice(),
    ) {
        Ok(u) => u,
        Err(_) => {
            passphrase.wipe();
            return Err(GenError::InvalidIdentity);
        },
    };
    let plan = plan_for(config, gen_time);
    let suite = match config.bits {
        RsaBits::Rsa3072 => CipherSuite::RSA3k,
        RsaBits::Rsa4096 => CipherSuite::RSA4k,
    };
    let validity: Option<u64> = match config.subkey_validity {
        SubkeyValidity::Unbounded => None,
        SubkeyValidity::Bounded(d) => Some(d),
    };
    let password = password_from_bytes(passphrase.into_bytes());
    let mut b = builder_new();
    b = builder_set_creation_time(b, gen_time);
    b = builder_set_cipher_suite(b, suite);
    b = builder_set_primary_key_flags(b, key_flags_for(&plan.master.caps));
    b = builder_set_primary_validity(b, None);
    b = builder_set_password(b, password);
    b = builder_add_userid(b, uid);
    let sign_caps = plan.subkeys[0].caps;
    let encrypt_caps = plan.subkeys[1].caps;
    let auth_caps = plan.subkeys[2].caps;
    b = builder_add_subkey(b, key_flags_for(&sign_caps), validity);
    b = builder_add_subkey(b, key_flags_for(&encrypt_caps), validity);
    b = builder_add_subkey(b, key_flags_for(&auth_caps), validity);
    let ghost configured = builder_subkeys(b);
    proof {
        assert(configured =~= seq![
            (cap_mask(cap_sign()), validity_seconds(config.subkey_validity)),
            (cap_mask(cap_encrypt()), validity_seconds(config.subkey_validity)),
            (cap_mask(cap_auth()), validity_seconds(config.subkey_validity)),
        ]);
    }
    match builder_generate(b) {
        Ok(o) => Ok(
            (
                KeyBundle {
                    cert: o.cert,
                    fingerprint: o.fingerprint,
                    plan,
                    identity,
                    configured_subkeys: Ghost(configured),
                },
                RevocationArtifact {
                    signature: o.revocation,
                    issuer_fingerprint: o.issuer_fingerprint,
                },
            ),
        ),
        Err(e) => Err(GenError::CryptoEngineFailure(e)),
    }
}

} // verus!
