use latencydesk::acl::{
    check_private_key_mode, choose_account, current_windows_account, owner_grant, windows_acl_grants_world_access,
};
use latencydesk::identity::{
    certificate_fingerprint, check_peer_certificate, check_size, judge_display_name,
    load_certificate_der, validate_display_name, verify_exact_peer,
    AclOperation, DisplayNameError, FileKind, FileOperation, IdentityError, NameFacts, TlsIdentity, MAX_CERTIFICATE_DER_BYTES,
    MAX_DISPLAY_NAME_CHARS,
};
use latencydesk::quic::QuicTransportError;

#[test]
fn display_name_policy_is_explicit() {
    assert!(TlsIdentity::generate("Office PC-1_台北").is_ok());
    assert!(matches!(
        TlsIdentity::generate(""),
        Err(IdentityError::InvalidDisplayName(DisplayNameError::Empty))
    ));
    assert!(matches!(
        TlsIdentity::generate(" padded"),
        Err(IdentityError::InvalidDisplayName(
            DisplayNameError::SurroundingWhitespace
        ))
    ));
    assert!(matches!(
        TlsIdentity::generate("host/name"),
        Err(IdentityError::InvalidDisplayName(
            DisplayNameError::InvalidCharacter { .. }
        ))
    ));
    let too_long = "a".repeat(MAX_DISPLAY_NAME_CHARS + 1);
    assert!(matches!(
        TlsIdentity::generate(&too_long),
        Err(IdentityError::InvalidDisplayName(
            DisplayNameError::TooLong { .. }
        ))
    ));
}

#[test]
fn certificate_fingerprint_is_sha256() {
    assert_eq!(
        certificate_fingerprint(b"abc"),
        [
            0xba, 0x78, 0x16, 0xbf, 0x8f, 0x01, 0xcf, 0xea, 0x41, 0x41, 0x40, 0xde, 0x5d, 0xae,
            0x22, 0x23, 0xb0, 0x03, 0x61, 0xa3, 0x96, 0x17, 0x7a, 0x9c, 0xb4, 0x10, 0xff, 0x61,
            0xf2, 0x00, 0x15, 0xad,
        ]
    );
}

#[test]
fn windows_acl_parser_rejects_world_principals() {
    assert!(windows_acl_grants_world_access(
        "C:\\k Everyone:(R)\r\nSuccessfully processed 1 files; Failed processing 0 files\r\n"
    ));
    assert!(windows_acl_grants_world_access(
        "C:\\k NT AUTHORITY\\Authenticated Users:(R)\r\n"
    ));
    assert!(windows_acl_grants_world_access(
        "C:\\k BUILTIN\\Users:(R)\r\n"
    ));
    assert!(windows_acl_grants_world_access(
        "                                                     Users:(R)\r\n"
    ));
    assert!(!windows_acl_grants_world_access(
        "C:\\k 90607STAR\\90607:(R,W)\r\nSuccessfully processed 1 files; Failed processing 0 files\r\n"
    ));
    assert!(!windows_acl_grants_world_access(
        "C:\\k 90607star\\CodexSandboxUsers:(I)(M)\r\n"
    ));
}

#[test]
fn display_names_are_judged_by_their_facts() {
    let sound = NameFacts {
        length: 4,
        is_padded: false,
        first_bad_char: None,
    };
    assert_eq!(judge_display_name(sound), Ok(()));
    assert_eq!(
        judge_display_name(NameFacts { length: 65, ..sound }),
        Err(DisplayNameError::TooLong { actual: 65 })
    );
    assert_eq!(
        judge_display_name(NameFacts {
            first_bad_char: Some(2),
            ..sound
        }),
        Err(DisplayNameError::InvalidCharacter { index: 2 })
    );
    assert_eq!(validate_display_name("a b.c-d_e"), Ok(()));
    assert_eq!(
        validate_display_name("tail\u{3000}"),
        Err(DisplayNameError::SurroundingWhitespace)
    );
    assert_eq!(
        validate_display_name("ab/c"),
        Err(DisplayNameError::InvalidCharacter { index: 2 })
    );
    assert_eq!(validate_display_name("é"), Ok(()));
}

#[test]
fn identity_round_trips_and_rejects_foreign_keys() {
    let first = TlsIdentity::generate("First").expect("identity");
    let second = TlsIdentity::generate("Second").expect("identity");
    assert_ne!(first.fingerprint(), second.fingerprint());
    assert_eq!(
        first.fingerprint(),
        certificate_fingerprint(first.certificate_der())
    );
    let again = TlsIdentity::from_der(
        first.certificate_der().to_vec(),
        first.private_key_der().to_vec(),
    )
    .expect("same parts");
    assert_eq!(again.certificate_der(), first.certificate_der());
    assert_eq!(
        again.redacted(),
        format!(
            "TlsIdentity {{ certificate_bytes: {}, fingerprint: {:?}, private_key: \"[redacted]\" }}",
            first.certificate_der().len(),
            first.fingerprint()
        )
    );
    assert!(matches!(
        TlsIdentity::from_der(
            first.certificate_der().to_vec(),
            second.private_key_der().to_vec(),
        ),
        Err(IdentityError::InvalidIdentity)
    ));
    assert!(matches!(
        TlsIdentity::from_der(
            vec![0; MAX_CERTIFICATE_DER_BYTES + 1],
            second.private_key_der().to_vec(),
        ),
        Err(IdentityError::FileTooLarge {
            kind: FileKind::Certificate,
            ..
        })
    ));
}

#[test]
fn peer_certificates_must_be_trust_anchors() {
    let identity = TlsIdentity::generate("Peer").expect("identity");
    assert_eq!(check_peer_certificate(identity.certificate_der()), Ok(()));
    assert_eq!(
        load_certificate_der(identity.certificate_der().to_vec()).expect("certificate"),
        identity.certificate_der()
    );
    assert_eq!(
        check_peer_certificate(b"no certificate"),
        Err(IdentityError::InvalidPeerCertificate)
    );
    assert_eq!(
        load_certificate_der(b"no certificate".to_vec()),
        Err(IdentityError::InvalidPeerCertificate)
    );
    assert_eq!(
        check_size(FileKind::PeerCertificate, 11, 10),
        Err(IdentityError::FileTooLarge {
            kind: FileKind::PeerCertificate,
            max_bytes: 10,
        })
    );
    assert_eq!(check_size(FileKind::PrivateKey, 10, 10), Ok(()));
}

#[test]
fn only_the_exact_leaf_is_accepted() {
    let chain = || Ok(vec![b"leaf".to_vec(), b"root".to_vec()]);
    assert_eq!(verify_exact_peer(chain(), b"leaf"), Ok(()));
    assert_eq!(
        verify_exact_peer(chain(), b"root"),
        Err(IdentityError::PeerCertificateMismatch)
    );
    assert_eq!(
        verify_exact_peer(Ok(vec![]), b"leaf"),
        Err(IdentityError::MissingPeerCertificate)
    );
    assert_eq!(
        verify_exact_peer(Err(QuicTransportError::UnexpectedPeerIdentity), b"leaf"),
        Err(IdentityError::QuicTransport(
            QuicTransportError::UnexpectedPeerIdentity
        ))
    );
}

#[test]
fn private_key_files_belong_to_their_owner() {
    assert_eq!(check_private_key_mode(0o100600), Ok(()));
    assert_eq!(check_private_key_mode(0o100400), Ok(()));
    assert_eq!(check_private_key_mode(0o100640), Err(0o640));
    assert_eq!(check_private_key_mode(0o100604), Err(0o604));
    assert_eq!(owner_grant("HOST\\me"), "HOST\\me:(R,W)");
    assert_eq!(
        current_windows_account(" HOST\\me \r\n", None, None),
        Some("HOST\\me".to_string())
    );
    assert_eq!(
        current_windows_account("", Some("HOST".into()), Some("me".into())),
        Some("HOST\\me".to_string())
    );
    assert_eq!(current_windows_account("", None, None), None);
    assert_eq!(
        choose_account("reported".into(), Some("HOST".into()), Some("me".into())),
        Some("reported".to_string())
    );
    assert_eq!(
        choose_account(String::new(), Some(String::new()), Some("me".into())),
        Some("me".to_string())
    );
}

#[test]
fn faults_have_their_texts() {
    assert!(DisplayNameError::Empty.describe().contains("empty"));
    let mode = IdentityError::InsecurePrivateKeyPermissions { mode: 0o640 };
    assert!(mode.describe("key.der", "").contains("key.der"));
    assert_eq!(
        mode.describe("key.der", ""),
        "private key at key.der has insecure mode 0640; expected no group/other permissions (0600 recommended)"
    );
    let wide = IdentityError::InsecurePrivateKeyPermissions { mode: 0o10600 };
    assert!(wide.describe("key.der", "").contains("insecure mode 10600;"));
    let read = IdentityError::Io {
        operation: FileOperation::Read,
    };
    assert_eq!(
        read.describe("key.der", "denied"),
        "failed to read key.der: denied"
    );
    let permissions = IdentityError::Io {
        operation: FileOperation::InspectPermissions,
    };
    assert_eq!(
        permissions.describe("key.der", "denied"),
        "failed to inspect private-key permissions for key.der: denied"
    );
    let acl = IdentityError::WindowsAclCommandFailed {
        operation: AclOperation::Restrict,
    };
    assert_eq!(
        acl.describe("key.der", "icacls exited with 5"),
        "failed to restrict private-key ACL for key.der: icacls exited with 5"
    );
}

fn holds(certificate: &[u8], part: &[u8]) -> bool {
    certificate.windows(part.len()).any(|window| window == part)
}

#[test]
fn generated_certificate_serves_both_ends_of_tls() {
    let identity = TlsIdentity::generate("Office PC").expect("identity");
    let certificate = identity.certificate_der();
    // id-ce-keyUsage, critical, with the bit string of a digital signature alone.
    assert!(holds(
        certificate,
        &[
            0x55, 0x1d, 0x0f, 0x01, 0x01, 0xff, 0x04, 0x05, 0x03, 0x03, 0x07, 0x80, 0x00,
        ]
    ));
    // id-ce-extKeyUsage with id-kp-serverAuth and id-kp-clientAuth, in this order.
    assert!(holds(
        certificate,
        &[
            0x55, 0x1d, 0x25, 0x04, 0x16, 0x30, 0x14, 0x06, 0x08, 0x2b, 0x06, 0x01, 0x05, 0x05,
            0x07, 0x03, 0x01, 0x06, 0x08, 0x2b, 0x06, 0x01, 0x05, 0x05, 0x07, 0x03, 0x02,
        ]
    ));
}
