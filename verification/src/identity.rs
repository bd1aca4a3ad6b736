//! Persistent TLS identities: what is accepted as one, and which peer is the
//! exact one.
//!
//! A TLS configuration starts from an empty trust store that holds one
//! caller-supplied certificate, and the connection wrappers independently
//! require exact equality of the peer's leaf.

use crate::bytes::{bytes_equal, digests_equal};
use crate::chars::{
    is_alphanumeric, is_whitespace, unicode_alphanumeric, unicode_whitespace,
};
use crate::digest::{sha256, sha256_digest};
use crate::quic::QuicTransportError;
use crate::route::{chain_bytes, chain_view};
use crate::text::{decimal, listed, octal, push_decimal, push_listed, push_octal, push_text};
use rcgen::{
    CertificateParams, DistinguishedName, DnType, ExtendedKeyUsagePurpose, KeyPair, KeyUsagePurpose,
};
use rustls::pki_types::{CertificateDer, PrivateKeyDer, PrivatePkcs8KeyDer};
use vstd::prelude::*;
use vstd::string::*;

verus! {

/// DNS subject alternative name present in every generated identity.
pub const TLS_SERVER_NAME: &'static str = "latencydesk.local";

/// Maximum number of Unicode scalar values accepted in a display name.
pub const MAX_DISPLAY_NAME_CHARS: usize = 64;

/// Maximum DER certificate size accepted from disk or callers.
pub const MAX_CERTIFICATE_DER_BYTES: usize = 65_536;

/// Maximum PKCS#8 private-key size accepted from disk or callers.
pub const MAX_PRIVATE_KEY_DER_BYTES: usize = 65_536;

/// Maximum simultaneously open incoming bidirectional QUIC streams.
pub const MAX_QUIC_BIDIRECTIONAL_STREAMS: u32 = 8;

/// Maximum simultaneously open incoming unidirectional QUIC streams.
pub const MAX_QUIC_UNIDIRECTIONAL_STREAMS: u32 = 8;

/// Per-stream receive flow-control window.
pub const QUIC_STREAM_RECEIVE_WINDOW_BYTES: u32 = 2_097_152;

/// Aggregate receive flow-control window.
pub const QUIC_RECEIVE_WINDOW_BYTES: u32 = 8_388_608;

/// Aggregate unacknowledged send-data limit.
pub const QUIC_SEND_WINDOW_BYTES: u64 = 8_388_608;

/// Maximum queued incoming QUIC DATAGRAM bytes.
pub const QUIC_DATAGRAM_RECEIVE_BUFFER_BYTES: usize = 2_097_152;

/// Maximum queued outgoing QUIC DATAGRAM bytes.
pub const QUIC_DATAGRAM_SEND_BUFFER_BYTES: usize = 2_097_152;

/// Application error code for a peer with another certificate.
pub const PEER_IDENTITY_ERROR_CODE: u32 = 0x101;

/// Why a requested certificate display name was rejected.
#[derive(Debug, Clone, Copy, PartialEq, Eq, Structural)]
pub enum DisplayNameError {
    /// The name was empty.
    Empty,
    /// Leading or trailing whitespace was present.
    SurroundingWhitespace,
    /// The name exceeded [`MAX_DISPLAY_NAME_CHARS`].
    TooLong { actual: usize },
    /// A character outside the conservative device-name alphabet was present.
    InvalidCharacter { index: usize },
}

/// What a file holds.
#[derive(Debug, Clone, Copy, PartialEq, Eq, Structural)]
pub enum FileKind {
    Certificate,
    PrivateKey,
    PeerCertificate,
}

/// What was tried on an identity file.
#[derive(Debug, Clone, Copy, PartialEq, Eq, Structural)]
pub enum FileOperation {
    InspectPermissions,
    Open,
    Read,
    CreatePrivateKey,
    CreateCertificate,
    SecurePrivateKey,
    WritePrivateKey,
    WriteCertificate,
    SyncPrivateKey,
    SyncCertificate,
}

/// What was tried on the access-control list of a private key.
#[derive(Debug, Clone, Copy, PartialEq, Eq, Structural)]
pub enum AclOperation {
    DetermineAccount,
    Inspect,
    Restrict,
    DisableInheritance,
}

/// Failures while creating, loading or checking an identity.
#[derive(Debug, Clone, Copy, PartialEq, Eq, Structural)]
pub enum IdentityError {
    /// The human-readable device name did not meet the certificate policy.
    InvalidDisplayName(DisplayNameError),
    /// The key pair or certificate could not be created.
    Generation,
    /// The local certificate/private-key pair was malformed or mismatched.
    InvalidIdentity,
    /// The exact peer certificate could not be used as a trust anchor.
    InvalidPeerCertificate,
    /// A mandatory client-certificate verifier could not be built.
    ClientVerifier,
    /// The selected TLS provider was not usable by QUIC.
    QuicCrypto,
    /// QUIC did not complete a fully authenticated connection.
    QuicTransport(QuicTransportError),
    /// The verified certificate chain did not contain a leaf certificate.
    MissingPeerCertificate,
    /// The authenticated leaf did not exactly equal the expected certificate.
    PeerCertificateMismatch,
    /// An identity file exceeded its fixed input limit.
    FileTooLarge { kind: FileKind, max_bytes: usize },
    /// Certificate and key paths referred to the same path.
    IdentityPathsMustDiffer,
    /// A private-key file is accessible by group or other users.
    InsecurePrivateKeyPermissions { mode: u32 },
    /// An access-control list lets everybody at a private key.
    InsecureWindowsPrivateKeyAcl,
    /// An access-control list could not be inspected or restricted.
    WindowsAclCommandFailed { operation: AclOperation },
    /// Filesystem work failed. No file contents are included in this error.
    Io { operation: FileOperation },
}

// ---------------------------------------------------------------------------
// Display names
// ---------------------------------------------------------------------------
/// A letter or number of any script, a space, or one of `-`, `_` and `.`.
pub open spec fn is_name_char(c: char) -> bool {
    unicode_alphanumeric(c) || c == ' ' || c == '-' || c == '_' || c == '.'
}

/// The index of the first character that a name may not hold.
pub open spec fn first_bad_char(name: Seq<char>) -> Option<usize>
    decreases name.len(),
{
    if name.len() == 0 {
        None
    } else if first_bad_char(name.drop_last()) is Some {
        first_bad_char(name.drop_last())
    } else if !is_name_char(name.last()) {
        Some((name.len() - 1) as usize)
    } else {
        None
    }
}

/// What a name is judged by.
#[derive(Debug, Clone, Copy, PartialEq, Eq, Structural)]
pub struct NameFacts {
    pub length: usize,
    /// The name starts or ends with white space.
    pub is_padded: bool,
    /// Index of the first character that a name may not hold.
    pub first_bad_char: Option<usize>,
}

/// What is wrong with a name, in the order of the checks.
pub open spec fn name_fault(facts: NameFacts) -> Option<DisplayNameError> {
    if facts.length == 0 {
        Some(DisplayNameError::Empty)
    } else if facts.is_padded {
        Some(DisplayNameError::SurroundingWhitespace)
    } else if facts.length > MAX_DISPLAY_NAME_CHARS {
        Some(DisplayNameError::TooLong { actual: facts.length })
    } else {
        match facts.first_bad_char {
            Some(index) => Some(DisplayNameError::InvalidCharacter { index }),
            None => None,
        }
    }
}

/// What a name is judged by. The characters of a name that is too long are not
/// looked at.
pub open spec fn facts_of(name: Seq<char>) -> NameFacts {
    NameFacts {
        length: name.len() as usize,
        is_padded: name.len() > 0 && (unicode_whitespace(name[0]) || unicode_whitespace(
            name.last(),
        )),
        first_bad_char: if name.len() > MAX_DISPLAY_NAME_CHARS {
            None
        } else {
            first_bad_char(name)
        },
    }
}

/// Judges a name by its facts.
pub fn judge_display_name(facts: NameFacts) -> (result: Result<(), DisplayNameError>)
    ensures
        result == (match name_fault(facts) {
            Some(error) => Err::<(), DisplayNameError>(error),
            None => Ok::<(), DisplayNameError>(()),
        }),
{
    if facts.length == 0 {
        return Err(DisplayNameError::Empty);
    }
    if facts.is_padded {
        return Err(DisplayNameError::SurroundingWhitespace);
    }
    if facts.length > MAX_DISPLAY_NAME_CHARS {
        return Err(DisplayNameError::TooLong { actual: facts.length });
    }
    match facts.first_bad_char {
        Some(index) => Err(DisplayNameError::InvalidCharacter { index }),
        None => Ok(()),
    }
}

/// Accepts a conservative device name.
pub fn validate_display_name(display_name: &str) -> (result: Result<(), DisplayNameError>)
    ensures
        result == (match name_fault(facts_of(display_name@)) {
            Some(error) => Err::<(), DisplayNameError>(error),
            None => Ok::<(), DisplayNameError>(()),
        }),
{
    let length: usize = display_name.unicode_len();
    let is_padded: bool = length > 0 && (is_whitespace(display_name.get_char(0)) || is_whitespace(
        display_name.get_char(length - 1),
    ));
    let mut first_bad: Option<usize> = None;
    if length <= MAX_DISPLAY_NAME_CHARS {
        let mut index: usize = 0;
        proof {
            assert(display_name@.take(0) =~= Seq::empty());
        }
        while index < length
            invariant
                index <= length,
                length == display_name@.len(),
                first_bad == first_bad_char(display_name@.take(index as int)),
            decreases length - index,
        {
            let c: char = display_name.get_char(index);
            proof {
                let longer = display_name@.take(index + 1);
                assert(longer.drop_last() =~= display_name@.take(index as int));
                assert(longer.last() == c);
            }
            let good: bool = is_alphanumeric(c) || c == ' ' || c == '-' || c == '_' || c == '.';
            if first_bad.is_none() && !good {
                first_bad = Some(index);
            }
            index += 1;
        }
        proof {
            assert(display_name@.take(length as int) =~= display_name@);
        }
    }
    judge_display_name(NameFacts { length, is_padded, first_bad_char: first_bad })
}

// ---------------------------------------------------------------------------
// Identities
// ---------------------------------------------------------------------------
/// TLS can trust this certificate as a root.
pub uninterp spec fn is_trust_anchor(certificate: Seq<u8>) -> bool;

/// Calls `RootCertStore::add` of the `rustls` crate on an empty store. Trusted:
/// whether it takes the certificate depends on the certificate's bytes alone.
#[verifier::external_body]
fn roots_take(certificate: &[u8]) -> (taken: bool)
    ensures
        taken == is_trust_anchor(certificate@),
{
    let mut roots = rustls::RootCertStore::empty();
    roots.add(CertificateDer::from(certificate.to_vec())).is_ok()
}

/// A TLS server can present this certificate with this private key.
pub uninterp spec fn is_server_pair(certificate: Seq<u8>, private_key: Seq<u8>) -> bool;

/// Calls `CertifiedKey::from_der` of the `rustls` crate, the check that a TLS
/// configuration makes of its certificate: a certificate is accepted only with
/// a private key that belongs to it. Trusted: what it takes is a pair that a
/// server can present, which the two byte strings alone decide. That such a
/// pair is always taken is not claimed: reading the key also needs the
/// machine's randomness.
#[verifier::external_body]
fn server_takes(certificate: &[u8], private_key: &[u8]) -> (taken: bool)
    ensures
        taken ==> is_server_pair(certificate@, private_key@),
{
    let provider = rustls::crypto::ring::default_provider();
    let chain = vec![CertificateDer::from(certificate.to_vec())];
    let key = PrivateKeyDer::Pkcs8(PrivatePkcs8KeyDer::from(private_key.to_vec()));
    rustls::sign::CertifiedKey::from_der(chain, key, &provider).is_ok()
}

/// What the key of a certificate may be used for.
#[derive(Debug, Clone, Copy, PartialEq, Eq, Structural)]
pub enum KeyUsage {
    /// Signing handshakes.
    DigitalSignature,
    /// Signing other certificates.
    KeyCertSign,
}

/// Which end of TLS a certificate serves.
#[derive(Debug, Clone, Copy, PartialEq, Eq, Structural)]
pub enum ExtendedUsage {
    ServerAuth,
    ClientAuth,
}

/// The certificate is signed with the private key it comes with, carries this
/// common name and this one server name, and its key is for this usage and for
/// these ends of TLS, and for nothing else.
pub uninterp spec fn is_self_signed(
    certificate: Seq<u8>,
    private_key: Seq<u8>,
    common_name: Seq<char>,
    server_name: Seq<char>,
    usage: KeyUsage,
    purposes: Seq<ExtendedUsage>,
) -> bool;

/// Calls `KeyPair::generate`, `CertificateParams::new` and `self_signed` of the
/// `rcgen` crate. The result is the certificate and its private key in DER.
/// Trusted: whatever key was drawn, the certificate is the self-signed one for
/// the two names and for these usages. That there is a result is not claimed:
/// the key depends on chance.
#[verifier::external_body]
fn self_signed(
    common_name: &str,
    server_name: &str,
    usage: KeyUsage,
    purposes: [ExtendedUsage; 2],
) -> (pair: Option<(Vec<u8>, Vec<u8>)>)
    ensures
        pair is Some ==> is_self_signed(
            pair->Some_0.0@,
            pair->Some_0.1@,
            common_name@,
            server_name@,
            usage,
            purposes@,
        ),
{
    let key_pair = KeyPair::generate().ok()?;
    let mut parameters = CertificateParams::new(vec![server_name.to_owned()]).ok()?;
    parameters.distinguished_name = DistinguishedName::new();
    parameters.distinguished_name.push(DnType::CommonName, common_name.to_owned());
    parameters.key_usages = vec![match usage {
        KeyUsage::DigitalSignature => KeyUsagePurpose::DigitalSignature,
        KeyUsage::KeyCertSign => KeyUsagePurpose::KeyCertSign,
    }];
    parameters.extended_key_usages = Vec::from(purposes.map(|purpose| match purpose {
        ExtendedUsage::ServerAuth => ExtendedKeyUsagePurpose::ServerAuth,
        ExtendedUsage::ClientAuth => ExtendedKeyUsagePurpose::ClientAuth,
    }));
    let certificate = parameters.self_signed(&key_pair).ok()?;
    Some((certificate.der().as_ref().to_vec(), key_pair.serialize_der()))
}

/// Accepts input within its size limit.
pub fn check_size(kind: FileKind, actual: usize, max_bytes: usize) -> (result: Result<
    (),
    IdentityError,
>)
    ensures
        result == (if actual > max_bytes {
            Err::<(), IdentityError>(IdentityError::FileTooLarge { kind, max_bytes })
        } else {
            Ok::<(), IdentityError>(())
        }),
{
    if actual > max_bytes {
        return Err(IdentityError::FileTooLarge { kind, max_bytes });
    }
    Ok(())
}

/// Why a certificate and a key are too large.
pub open spec fn size_fault(certificate_len: int, private_key_len: int) -> Option<IdentityError> {
    if certificate_len > MAX_CERTIFICATE_DER_BYTES {
        Some(
            IdentityError::FileTooLarge {
                kind: FileKind::Certificate,
                max_bytes: MAX_CERTIFICATE_DER_BYTES,
            },
        )
    } else if private_key_len > MAX_PRIVATE_KEY_DER_BYTES {
        Some(
            IdentityError::FileTooLarge {
                kind: FileKind::PrivateKey,
                max_bytes: MAX_PRIVATE_KEY_DER_BYTES,
            },
        )
    } else {
        None
    }
}

/// A certificate and its private key as mathematics sees them.
pub struct IdentityView {
    pub certificate: Seq<u8>,
    pub private_key: Seq<u8>,
}

/// A validated X.509 certificate and matching PKCS#8 private key. It has no
/// debug output of its own.
pub struct TlsIdentity {
    certificate: Vec<u8>,
    private_key: Vec<u8>,
}

impl View for TlsIdentity {
    type V = IdentityView;

    closed spec fn view(&self) -> IdentityView {
        IdentityView { certificate: self.certificate@, private_key: self.private_key@ }
    }
}

impl TlsIdentity {
    /// Generates a self-signed identity with a fixed DNS name and the validated
    /// display name as its common name. Its key signs handshakes, at either end
    /// of TLS.
    pub fn generate(display_name: &str) -> (result: Result<TlsIdentity, IdentityError>)
        ensures
            match name_fault(facts_of(display_name@)) {
                Some(error) => result is Err && result->Err_0 == IdentityError::InvalidDisplayName(
                    error,
                ),
                None => match result {
                    Ok(identity) => {
                        &&& is_self_signed(
                            identity@.certificate,
                            identity@.private_key,
                            display_name@,
                            TLS_SERVER_NAME@,
                            KeyUsage::DigitalSignature,
                            seq![ExtendedUsage::ServerAuth, ExtendedUsage::ClientAuth],
                        )
                        &&& is_server_pair(identity@.certificate, identity@.private_key)
                        &&& is_trust_anchor(identity@.certificate)
                        &&& size_fault(
                            identity@.certificate.len() as int,
                            identity@.private_key.len() as int,
                        ) is None
                    },
                    Err(error) => error == IdentityError::Generation || error
                        == IdentityError::InvalidIdentity || error is FileTooLarge,
                },
            },
    {
        match validate_display_name(display_name) {
            Err(error) => return Err(IdentityError::InvalidDisplayName(error)),
            Ok(()) => {},
        }
        let purposes: [ExtendedUsage; 2] = [ExtendedUsage::ServerAuth, ExtendedUsage::ClientAuth];
        assert(purposes@ =~= seq![ExtendedUsage::ServerAuth, ExtendedUsage::ClientAuth]);
        match self_signed(display_name, TLS_SERVER_NAME, KeyUsage::DigitalSignature, purposes) {
            Some((certificate, private_key)) => TlsIdentity::from_der(certificate, private_key),
            None => Err(IdentityError::Generation),
        }
    }

    /// Validates and owns one DER certificate and one DER PKCS#8 private key.
    pub fn from_der(certificate_der: Vec<u8>, private_key_pkcs8_der: Vec<u8>) -> (result: Result<
        TlsIdentity,
        IdentityError,
    >)
        ensures
            match size_fault(
                certificate_der@.len() as int,
                private_key_pkcs8_der@.len() as int,
            ) {
                Some(error) => result is Err && result->Err_0 == error,
                None => match result {
                    Ok(identity) => {
                        &&& identity@.certificate == certificate_der@
                        &&& identity@.private_key == private_key_pkcs8_der@
                        &&& is_server_pair(certificate_der@, private_key_pkcs8_der@)
                        &&& is_trust_anchor(certificate_der@)
                    },
                    Err(error) => error == IdentityError::InvalidIdentity,
                },
            },
    {
        match check_size(FileKind::Certificate, certificate_der.len(), MAX_CERTIFICATE_DER_BYTES) {
            Err(error) => return Err(error),
            Ok(()) => {},
        }
        match check_size(
            FileKind::PrivateKey,
            private_key_pkcs8_der.len(),
            MAX_PRIVATE_KEY_DER_BYTES,
        ) {
            Err(error) => return Err(error),
            Ok(()) => {},
        }
        let belongs: bool = server_takes(&certificate_der, &private_key_pkcs8_der);
        let anchors: bool = roots_take(&certificate_der);
        TlsIdentity::from_checked(certificate_der, private_key_pkcs8_der, belongs, anchors)
    }

    /// Owns a certificate and a key, given whether the key belongs to the
    /// certificate and whether the certificate can be trusted as a root.
    pub fn from_checked(
        certificate_der: Vec<u8>,
        private_key_pkcs8_der: Vec<u8>,
        belongs: bool,
        anchors: bool,
    ) -> (result: Result<TlsIdentity, IdentityError>)
        ensures
            if belongs && anchors {
                &&& result is Ok
                &&& result->Ok_0@.certificate == certificate_der@
                &&& result->Ok_0@.private_key == private_key_pkcs8_der@
            } else {
                result is Err && result->Err_0 == IdentityError::InvalidIdentity
            },
    {
        if !belongs || !anchors {
            return Err(IdentityError::InvalidIdentity);
        }
        Ok(TlsIdentity { certificate: certificate_der, private_key: private_key_pkcs8_der })
    }

    /// The public DER-encoded end-entity certificate.
    pub fn certificate_der(&self) -> (certificate: &[u8])
        ensures
            certificate@ == self@.certificate,
    {
        &self.certificate
    }

    /// The secret DER-encoded private key.
    pub fn private_key_der(&self) -> (private_key: &[u8])
        ensures
            private_key@ == self@.private_key,
    {
        &self.private_key
    }

    /// The SHA-256 fingerprint of the exact DER certificate bytes.
    pub fn fingerprint(&self) -> (fingerprint: [u8; 32])
        ensures
            fingerprint@ == sha256_digest(self@.certificate),
    {
        certificate_fingerprint(&self.certificate)
    }
}

/// Computes the SHA-256 fingerprint of exact DER certificate bytes.
pub fn certificate_fingerprint(certificate_der: &[u8]) -> (fingerprint: [u8; 32])
    ensures
        fingerprint@ == sha256_digest(certificate_der@),
{
    sha256(certificate_der)
}

/// Accepts one peer certificate within the size bound that TLS can use as a
/// trust anchor.
pub fn check_peer_certificate(certificate_der: &[u8]) -> (result: Result<(), IdentityError>)
    ensures
        result == (if certificate_der@.len() > MAX_CERTIFICATE_DER_BYTES {
            Err::<(), IdentityError>(
                IdentityError::FileTooLarge {
                    kind: FileKind::PeerCertificate,
                    max_bytes: MAX_CERTIFICATE_DER_BYTES,
                },
            )
        } else if is_trust_anchor(certificate_der@) {
            Ok::<(), IdentityError>(())
        } else {
            Err::<(), IdentityError>(IdentityError::InvalidPeerCertificate)
        }),
{
    match check_size(
        FileKind::PeerCertificate,
        certificate_der.len(),
        MAX_CERTIFICATE_DER_BYTES,
    ) {
        Err(error) => return Err(error),
        Ok(()) => {},
    }
    if roots_take(certificate_der) {
        Ok(())
    } else {
        Err(IdentityError::InvalidPeerCertificate)
    }
}

/// What a peer certificate read from disk gives.
pub fn load_certificate_der(certificate_der: Vec<u8>) -> (result: Result<Vec<u8>, IdentityError>)
    ensures
        result is Ok <==> certificate_der@.len() <= MAX_CERTIFICATE_DER_BYTES && is_trust_anchor(
            certificate_der@,
        ),
        result is Ok ==> result->Ok_0@ == certificate_der@,
        result is Err ==> result->Err_0 == (if certificate_der@.len() > MAX_CERTIFICATE_DER_BYTES {
            IdentityError::FileTooLarge {
                kind: FileKind::PeerCertificate,
                max_bytes: MAX_CERTIFICATE_DER_BYTES,
            }
        } else {
            IdentityError::InvalidPeerCertificate
        }),
{
    match check_peer_certificate(&certificate_der) {
        Ok(()) => Ok(certificate_der),
        Err(error) => Err(error),
    }
}

/// Why an authenticated peer is not the exact one.
pub open spec fn peer_fault(
    chain: Result<Seq<Seq<u8>>, QuicTransportError>,
    expected: Seq<u8>,
) -> Option<IdentityError> {
    match chain {
        Err(error) => Some(IdentityError::QuicTransport(error)),
        Ok(chain) => if chain.len() == 0 {
            Some(IdentityError::MissingPeerCertificate)
        } else if chain[0] != expected {
            Some(IdentityError::PeerCertificateMismatch)
        } else {
            None
        },
    }
}

/// Accepts a peer whose authenticated leaf is byte-for-byte the expected
/// certificate. On an error the connection is closed.
///
/// This equality gate is intentionally separate from path validation: a
/// caller-supplied certificate that happens to be a CA could otherwise
/// authorize a different leaf signed by that CA.
pub fn verify_exact_peer(
    chain: Result<Vec<Vec<u8>>, QuicTransportError>,
    expected_certificate_der: &[u8],
) -> (result: Result<(), IdentityError>)
    ensures
        result == (match peer_fault(chain_view(chain), expected_certificate_der@) {
            Some(error) => Err::<(), IdentityError>(error),
            None => Ok::<(), IdentityError>(()),
        }),
{
    let chain: Vec<Vec<u8>> = match chain {
        Ok(chain) => chain,
        Err(error) => return Err(IdentityError::QuicTransport(error)),
    };
    if chain.len() == 0 {
        return Err(IdentityError::MissingPeerCertificate);
    }
    let actual: [u8; 32] = certificate_fingerprint(&chain[0]);
    let expected: [u8; 32] = certificate_fingerprint(expected_certificate_der);
    proof {
        assert(chain_bytes(chain@)[0] == chain@[0]@);
        if chain@[0]@ == expected_certificate_der@ {
            assert forall|i: int| 0 <= i < 32 implies actual[i] == expected[i] by {
                assert(actual@[i] == expected@[i]);
            }
            assert(actual =~= expected);
        }
    }
    if !digests_equal(&actual, &expected) || !bytes_equal(&chain[0], expected_certificate_der) {
        return Err(IdentityError::PeerCertificateMismatch);
    }
    Ok(())
}

/// Only the exact leaf is ever accepted, whatever else its chain holds.
pub proof fn law_only_the_exact_leaf_is_accepted(
    chain: Seq<Seq<u8>>,
    other: Seq<Seq<u8>>,
    expected: Seq<u8>,
)
    requires
        chain.len() > 0,
        other.len() > 0,
    ensures
        peer_fault(Ok(chain), chain[0]) is None,
        peer_fault(Ok(chain), expected) is None ==> chain[0] == expected,
        chain[0] == other[0] ==> peer_fault(Ok(chain), expected) == peer_fault(
            Ok(other),
            expected,
        ),
{
}

// ---------------------------------------------------------------------------
// Texts
// ---------------------------------------------------------------------------
/// What a file holds, in words.
pub open spec fn kind_text(kind: FileKind) -> Seq<char> {
    match kind {
        FileKind::Certificate => "certificate"@,
        FileKind::PrivateKey => "private key"@,
        FileKind::PeerCertificate => "peer certificate"@,
    }
}

/// A display-name error in words.
pub open spec fn name_error_text(error: DisplayNameError) -> Seq<char> {
    match error {
        DisplayNameError::Empty => "display name is empty"@,
        DisplayNameError::SurroundingWhitespace =>
            "display name has leading or trailing whitespace"@,
        DisplayNameError::TooLong { actual } => "display name has "@ + decimal(actual as nat)
            + " characters; maximum is 64"@,
        DisplayNameError::InvalidCharacter { index } =>
            "display name has an invalid character at index "@ + decimal(index as nat),
    }
}

/// A file mode in octal, at least four digits of it.
pub open spec fn octal_mode(mode: u32) -> Seq<char> {
    octal(mode as nat, 4)
}

/// What was tried on a file, in words.
pub open spec fn operation_text(operation: FileOperation) -> Seq<char> {
    match operation {
        FileOperation::InspectPermissions => "inspect private-key permissions for"@,
        FileOperation::Open => "open"@,
        FileOperation::Read => "read"@,
        FileOperation::CreatePrivateKey => "create private key"@,
        FileOperation::CreateCertificate => "create certificate"@,
        FileOperation::SecurePrivateKey => "secure private key"@,
        FileOperation::WritePrivateKey => "write private key"@,
        FileOperation::WriteCertificate => "write certificate"@,
        FileOperation::SyncPrivateKey => "sync private key"@,
        FileOperation::SyncCertificate => "sync certificate"@,
    }
}

/// What was tried on an access-control list, in words.
pub open spec fn acl_operation_text(operation: AclOperation) -> Seq<char> {
    match operation {
        AclOperation::DetermineAccount => "determine current Windows account for"@,
        AclOperation::Inspect => "inspect private-key ACL for"@,
        AclOperation::Restrict => "restrict private-key ACL for"@,
        AclOperation::DisableInheritance => "disable private-key ACL inheritance for"@,
    }
}

/// That something tried on a file failed.
pub open spec fn failed_text(
    operation: Seq<char>,
    path: Seq<char>,
    detail: Seq<char>,
) -> Seq<char> {
    "failed to "@ + operation + " "@ + path + ": "@ + detail
}

/// An identity error in words. `path` is the file that it is about, and
/// `detail` what the layer below reported.
pub open spec fn error_text(error: IdentityError, path: Seq<char>, detail: Seq<char>) -> Seq<char> {
    match error {
        IdentityError::InvalidDisplayName(error) => "invalid display name: "@ + name_error_text(
            error,
        ),
        IdentityError::Generation => "TLS identity generation failed: "@ + detail,
        IdentityError::InvalidIdentity => "invalid TLS identity: "@ + detail,
        IdentityError::InvalidPeerCertificate => "invalid exact peer certificate: "@ + detail,
        IdentityError::ClientVerifier => "client-certificate verifier setup failed: "@ + detail,
        IdentityError::QuicCrypto => "QUIC TLS setup failed: "@ + detail,
        IdentityError::QuicTransport(_) => "QUIC authentication failed: "@ + detail,
        IdentityError::MissingPeerCertificate =>
            "authenticated peer certificate chain was empty"@,
        IdentityError::PeerCertificateMismatch =>
            "authenticated peer leaf did not match the exact certificate"@,
        IdentityError::FileTooLarge { kind, max_bytes } => kind_text(kind) + " at "@ + path
            + " exceeds the "@ + decimal(max_bytes as nat) + "-byte limit"@,
        IdentityError::IdentityPathsMustDiffer =>
            "certificate and private-key paths must differ"@,
        IdentityError::InsecurePrivateKeyPermissions { mode } => "private key at "@ + path
            + " has insecure mode "@ + octal_mode(mode)
            + "; expected no group/other permissions (0600 recommended)"@,
        IdentityError::InsecureWindowsPrivateKeyAcl => "private key at "@ + path
            + " has an insecure Windows ACL; Everyone, Users, and Authenticated Users must not have access"@,
        IdentityError::WindowsAclCommandFailed { operation } => failed_text(
            acl_operation_text(operation),
            path,
            detail,
        ),
        IdentityError::Io { operation } => failed_text(operation_text(operation), path, detail),
    }
}

impl DisplayNameError {
    /// The error in words.
    pub fn describe(&self) -> (text: String)
        ensures
            text@ == name_error_text(*self),
    {
        match *self {
            DisplayNameError::Empty => String::from_str("display name is empty"),
            DisplayNameError::SurroundingWhitespace => String::from_str(
                "display name has leading or trailing whitespace",
            ),
            DisplayNameError::TooLong { actual } => {
                let mut text: String = String::from_str("display name has ");
                push_decimal(&mut text, actual as u64);
                push_text(&mut text, " characters; maximum is 64");
                text
            },
            DisplayNameError::InvalidCharacter { index } => {
                let mut text: String = String::from_str(
                    "display name has an invalid character at index ",
                );
                push_decimal(&mut text, index as u64);
                text
            },
        }
    }
}

fn joined_text(prefix: &str, detail: &str) -> (text: String)
    ensures
        text@ == prefix@ + detail@,
{
    let mut text: String = String::from_str(prefix);
    push_text(&mut text, detail);
    text
}

fn push_kind(text: &mut String, kind: FileKind)
    ensures
        final(text)@ == old(text)@ + kind_text(kind),
{
    match kind {
        FileKind::Certificate => push_text(text, "certificate"),
        FileKind::PrivateKey => push_text(text, "private key"),
        FileKind::PeerCertificate => push_text(text, "peer certificate"),
    }
}

fn push_mode(text: &mut String, mode: u32)
    ensures
        final(text)@ == old(text)@ + octal_mode(mode),
{
    push_octal(text, mode as u64, 4);
}

fn failure(operation: &str, path: &str, detail: &str) -> (text: String)
    ensures
        text@ == failed_text(operation@, path@, detail@),
{
    let mut text: String = joined_text("failed to ", operation);
    push_text(&mut text, " ");
    push_text(&mut text, path);
    push_text(&mut text, ": ");
    push_text(&mut text, detail);
    text
}

fn operation_words(operation: FileOperation) -> (text: &'static str)
    ensures
        text@ == operation_text(operation),
{
    match operation {
        FileOperation::InspectPermissions => "inspect private-key permissions for",
        FileOperation::Open => "open",
        FileOperation::Read => "read",
        FileOperation::CreatePrivateKey => "create private key",
        FileOperation::CreateCertificate => "create certificate",
        FileOperation::SecurePrivateKey => "secure private key",
        FileOperation::WritePrivateKey => "write private key",
        FileOperation::WriteCertificate => "write certificate",
        FileOperation::SyncPrivateKey => "sync private key",
        FileOperation::SyncCertificate => "sync certificate",
    }
}

fn acl_operation_words(operation: AclOperation) -> (text: &'static str)
    ensures
        text@ == acl_operation_text(operation),
{
    match operation {
        AclOperation::DetermineAccount => "determine current Windows account for",
        AclOperation::Inspect => "inspect private-key ACL for",
        AclOperation::Restrict => "restrict private-key ACL for",
        AclOperation::DisableInheritance => "disable private-key ACL inheritance for",
    }
}

impl IdentityError {
    /// The error in words.
    pub fn describe(&self, path: &str, detail: &str) -> (text: String)
        ensures
            text@ == error_text(*self, path@, detail@),
    {
        match *self {
            IdentityError::InvalidDisplayName(error) => {
                let inner: String = error.describe();
                joined_text("invalid display name: ", inner.as_str())
            },
            IdentityError::Generation => joined_text("TLS identity generation failed: ", detail),
            IdentityError::InvalidIdentity => joined_text("invalid TLS identity: ", detail),
            IdentityError::InvalidPeerCertificate => joined_text(
                "invalid exact peer certificate: ",
                detail,
            ),
            IdentityError::ClientVerifier => joined_text(
                "client-certificate verifier setup failed: ",
                detail,
            ),
            IdentityError::QuicCrypto => joined_text("QUIC TLS setup failed: ", detail),
            IdentityError::QuicTransport(_) => joined_text("QUIC authentication failed: ", detail),
            IdentityError::MissingPeerCertificate => String::from_str(
                "authenticated peer certificate chain was empty",
            ),
            IdentityError::PeerCertificateMismatch => String::from_str(
                "authenticated peer leaf did not match the exact certificate",
            ),
            IdentityError::FileTooLarge { kind, max_bytes } => {
                let mut text: String = String::new();
                push_kind(&mut text, kind);
                push_text(&mut text, " at ");
                push_text(&mut text, path);
                push_text(&mut text, " exceeds the ");
                push_decimal(&mut text, max_bytes as u64);
                push_text(&mut text, "-byte limit");
                assert(text@ =~= error_text(*self, path@, detail@));
                text
            },
            IdentityError::IdentityPathsMustDiffer => String::from_str(
                "certificate and private-key paths must differ",
            ),
            IdentityError::InsecurePrivateKeyPermissions { mode } => {
                let mut text: String = joined_text("private key at ", path);
                push_text(&mut text, " has insecure mode ");
                push_mode(&mut text, mode);
                push_text(
                    &mut text,
                    "; expected no group/other permissions (0600 recommended)",
                );
                text
            },
            IdentityError::InsecureWindowsPrivateKeyAcl => {
                let mut text: String = joined_text("private key at ", path);
                push_text(
                    &mut text,
                    " has an insecure Windows ACL; Everyone, Users, and Authenticated Users must not have access",
                );
                text
            },
            IdentityError::WindowsAclCommandFailed { operation } => failure(
                acl_operation_words(operation),
                path,
                detail,
            ),
            IdentityError::Io { operation } => failure(operation_words(operation), path, detail),
        }
    }
}

impl TlsIdentity {
    /// What may be shown of an identity: the length and fingerprint of its
    /// public part.
    pub fn redacted(&self) -> (text: String)
        ensures
            text@ == "TlsIdentity { certificate_bytes: "@ + decimal(self@.certificate.len())
                + ", fingerprint: ["@ + listed(sha256_digest(self@.certificate))
                + "], private_key: \"[redacted]\" }"@,
    {
        let mut text: String = String::from_str("TlsIdentity { certificate_bytes: ");
        push_decimal(&mut text, self.certificate.len() as u64);
        push_text(&mut text, ", fingerprint: [");
        let fingerprint: [u8; 32] = self.fingerprint();
        push_listed(&mut text, &fingerprint);
        push_text(&mut text, "], private_key: \"[redacted]\" }");
        text
    }
}

} // verus!
