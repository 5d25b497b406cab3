use vnc::client::auth::AuthHelper;
use vnc::client::driver::Demand;
use vnc::client::security::vencrypt::{VeNCryptAuth, VeNCryptStage, VeNCryptSubtype};
use vnc::protocol::security::des;
use vnc::protocol::security::types::{AuthResult, SecurityType};
use vnc::{Credentials, VncError, VncVersion};

#[test]
fn des_matches_the_classic_worked_example() {
    let key = [0x13, 0x34, 0x57, 0x79, 0x9b, 0xbc, 0xdf, 0xf1];
    let block = [0x01, 0x23, 0x45, 0x67, 0x89, 0xab, 0xcd, 0xef];
    assert_eq!(
        des::encrypt_one(&block, &key),
        vec![0x85, 0xe8, 0x13, 0x54, 0x0f, 0x0a, 0xb4, 0x05]
    );
}

#[test]
fn des_of_zeros_under_the_zero_key() {
    assert_eq!(
        des::encrypt_one(&[0u8; 8], &[0u8; 8]),
        vec![0x8c, 0xa6, 0x4d, 0xe9, 0xc1, 0xb1, 0x23, 0xa7]
    );
}

#[test]
fn des_encrypts_two_blocks_each_by_itself() {
    let key = [0x0e, 0x86, 0xce, 0xce, 0, 0, 0, 0];
    let data: [u8; 16] = [0, 1, 2, 3, 4, 5, 6, 7, 8, 9, 10, 11, 12, 13, 14, 15];
    let out = des::encrypt(&data, &key);
    assert_eq!(&out[..8], &des::encrypt_one(&[0, 1, 2, 3, 4, 5, 6, 7], &key)[..]);
    assert_eq!(&out[8..], &des::encrypt_one(&[8, 9, 10, 11, 12, 13, 14, 15], &key)[..]);
    assert_eq!(
        out,
        [
            0x5f, 0xb0, 0x2f, 0x4e, 0x6e, 0xc9, 0xfd, 0xa0, 0x6c, 0x41, 0xdf, 0x1f, 0x35, 0x01,
            0x51, 0x38
        ]
    );
}

#[test]
fn key_is_the_password_with_each_byte_mirrored() {
    assert_eq!(AuthHelper::derive_key("pass"), [0x0e, 0x86, 0xce, 0xce, 0, 0, 0, 0]);
    assert_eq!(AuthHelper::derive_key(""), [0u8; 8]);
    // Only the first eight bytes count.
    assert_eq!(AuthHelper::derive_key("abcdefghij"), AuthHelper::derive_key("abcdefgh"));
    assert_eq!(
        AuthHelper::derive_key("abcdefgh"),
        [0x86, 0x46, 0xc6, 0x26, 0xa6, 0x66, 0xe6, 0x16]
    );
}

#[test]
fn reverse_mirrors_the_bits_of_a_byte() {
    assert_eq!(AuthHelper::reverse(0x01), 0x80);
    assert_eq!(AuthHelper::reverse(0x70), 0x0e);
    assert_eq!(AuthHelper::reverse(0xff), 0xff);
    for b in 0..=255u8 {
        assert_eq!(AuthHelper::reverse(b), b.reverse_bits());
        assert_eq!(AuthHelper::reverse(AuthHelper::reverse(b)), b);
    }
}

#[test]
fn auth_helper_reads_writes_and_finishes() {
    let challenge: Vec<u8> = (0u8..16).collect();
    let helper = AuthHelper::read(&challenge, "pass").unwrap();
    let mut out = vec![0xaa];
    helper.write(&mut out);
    assert_eq!(out.len(), 17);
    assert_eq!(
        out,
        vec![
            0xaa, 0x5f, 0xb0, 0x2f, 0x4e, 0x6e, 0xc9, 0xfd, 0xa0, 0x6c, 0x41, 0xdf, 0x1f, 0x35,
            0x01, 0x51, 0x38
        ]
    );
    assert_eq!(helper.finish(&[0, 0, 0, 0]), Ok(AuthResult::Success));
    let helper = AuthHelper::read(&challenge, "pass").unwrap();
    assert_eq!(helper.finish(&[0, 0, 0, 1]), Ok(AuthResult::Failed));
    let helper = AuthHelper::read(&challenge, "pass").unwrap();
    assert_eq!(helper.finish(&[0, 0, 1, 0]), Err(VncError::Protocol));
    let helper = AuthHelper::read(&challenge, "pass").unwrap();
    assert_eq!(helper.finish(&[0, 0, 0]), Err(VncError::Io));
    assert!(matches!(AuthHelper::read(&challenge[..15], "pass"), Err(VncError::Io)));
}

#[test]
fn credentials_hand_out_their_parts() {
    let both = Credentials::new(Some("u".to_string()), Some("p".to_string()));
    assert_eq!(both.get_username(), Some("u"));
    assert_eq!(both.get_password(), Some("p"));
    assert!(!both.is_none());
    let none = Credentials::new(None, None);
    assert_eq!(none.get_username(), None);
    assert_eq!(none.get_password(), None);
    assert!(none.is_none());
    assert!(Credentials::default().is_none());
    assert!(!Credentials::new(None, Some(String::new())).is_none());
}

#[test]
fn security_types_keep_their_wire_bytes() {
    let all = [
        (SecurityType::Invalid, 0u8),
        (SecurityType::NoAuth, 1),
        (SecurityType::VncAuth, 2),
        (SecurityType::RA2, 5),
        (SecurityType::RA2ne, 6),
        (SecurityType::Tight, 16),
        (SecurityType::Ultra, 17),
        (SecurityType::Tls, 18),
        (SecurityType::VeNCrypt, 19),
        (SecurityType::GtkVncSasl, 20),
        (SecurityType::Md5Hash, 21),
        (SecurityType::ColinDeanXvp, 22),
        (SecurityType::RA2_256, 129),
    ];
    for (t, code) in all {
        assert_eq!(u8::from(t), code);
        assert_eq!(SecurityType::try_from(code), Ok(t));
    }
    assert_eq!(SecurityType::try_from(3), Err(VncError::InvalidSecurityType(3)));
    assert_eq!(SecurityType::try_from(255), Err(VncError::InvalidSecurityType(255)));
}

#[test]
fn security_type_lists_are_read_per_version() {
    assert_eq!(
        SecurityType::read(&[1, 2, 19], &VncVersion::RFB38),
        Ok(vec![SecurityType::NoAuth, SecurityType::VncAuth, SecurityType::VeNCrypt])
    );
    // A server that offers nothing refuses: no bytes make no list.
    assert_eq!(SecurityType::read(&[], &VncVersion::RFB37), Err(VncError::UnsupportedSecurity));
    assert_eq!(SecurityType::read(&[], &VncVersion::RFB38), Err(VncError::UnsupportedSecurity));
    assert_eq!(SecurityType::read(&[0], &VncVersion::RFB38), Ok(vec![SecurityType::Invalid]));
    assert_eq!(
        SecurityType::read(&[1, 4, 9], &VncVersion::RFB37),
        Err(VncError::InvalidSecurityType(4))
    );
    assert_eq!(SecurityType::read(&[0, 0, 0, 2], &VncVersion::RFB33), Ok(vec![SecurityType::VncAuth]));
    assert_eq!(SecurityType::read(&[0, 0, 0, 1], &VncVersion::RFB33), Ok(vec![SecurityType::NoAuth]));
    assert_eq!(SecurityType::read(&[0, 0, 0, 0], &VncVersion::RFB33), Ok(vec![SecurityType::Invalid]));
    // The whole word counts, and under this version it is 0, 1 or 2.
    assert_eq!(SecurityType::read(&[9, 9, 9, 1], &VncVersion::RFB33), Err(VncError::Protocol));
    assert_eq!(SecurityType::read(&[0, 0, 1, 1], &VncVersion::RFB33), Err(VncError::Protocol));
    assert_eq!(
        SecurityType::read(&[0, 0, 0, 19], &VncVersion::RFB33),
        Err(VncError::UnsupportedSecurity)
    );
    assert_eq!(SecurityType::of_word(256), Err(VncError::Protocol));
    assert_eq!(SecurityType::of_word(5), Err(VncError::UnsupportedSecurity));
    assert_eq!(SecurityType::of_word(2), Ok(SecurityType::VncAuth));
    assert_eq!(
        SecurityType::read(&[0, 0, 0, 3], &VncVersion::RFB33),
        Err(VncError::InvalidSecurityType(3))
    );
    assert_eq!(SecurityType::read(&[0, 0, 2], &VncVersion::RFB33), Err(VncError::Io));
    let mut out = vec![9];
    SecurityType::VeNCrypt.write(&mut out);
    assert_eq!(out, vec![9, 19]);
}

#[test]
fn auth_result_keeps_its_wire_words() {
    assert_eq!(AuthResult::try_from(0), Ok(AuthResult::Success));
    assert_eq!(AuthResult::try_from(1), Ok(AuthResult::Failed));
    assert_eq!(AuthResult::try_from(2), Err(VncError::Protocol));
    assert_eq!(u32::from(AuthResult::Success), 0);
    assert_eq!(u32::from(AuthResult::Failed), 1);
}

#[test]
fn vencrypt_subtypes_keep_their_numbers_and_attributes() {
    let all = [
        (VeNCryptSubtype::Plain, 256u32, false, true),
        (VeNCryptSubtype::TlsNone, 257, true, false),
        (VeNCryptSubtype::TlsVnc, 258, true, false),
        (VeNCryptSubtype::TlsPlain, 259, true, true),
        (VeNCryptSubtype::X509None, 260, true, false),
        (VeNCryptSubtype::X509Vnc, 261, true, false),
        (VeNCryptSubtype::X509Plain, 262, true, true),
        (VeNCryptSubtype::TlsSasl, 263, true, false),
        (VeNCryptSubtype::X509Sasl, 264, true, false),
    ];
    for (subtype, code, tls, plain) in all {
        assert_eq!(u32::from(subtype), code);
        assert_eq!(VeNCryptSubtype::try_from(code), Ok(subtype));
        assert_eq!(subtype.requires_tls(), tls);
        assert_eq!(subtype.requires_plain_auth(), plain);
    }
    assert_eq!(VeNCryptSubtype::try_from(255), Err(VncError::UnsupportedVencrypt));
    assert_eq!(VeNCryptSubtype::try_from(265), Err(VncError::UnsupportedVencrypt));
}

#[test]
fn vencrypt_version_needs_zero_point_two_or_later() {
    assert_eq!(VeNCryptAuth::negotiate_version(&[0, 2]), Ok(vec![0, 2]));
    assert_eq!(VeNCryptAuth::negotiate_version(&[0, 9]), Ok(vec![0, 2]));
    assert_eq!(VeNCryptAuth::negotiate_version(&[0, 1]), Err(VncError::UnsupportedVencrypt));
    assert_eq!(VeNCryptAuth::negotiate_version(&[1, 2]), Err(VncError::UnsupportedVencrypt));
    assert_eq!(VeNCryptAuth::negotiate_version(&[0]), Err(VncError::Io));
}

fn codes(list: &[u32]) -> Vec<u8> {
    let mut bytes = Vec::new();
    for code in list {
        bytes.extend_from_slice(&code.to_be_bytes());
    }
    bytes
}

#[test]
fn vencrypt_subtype_is_picked_by_preference() {
    assert_eq!(
        VeNCryptAuth::negotiate_subtype(&codes(&[257, 260, 256, 259, 262])),
        Ok(VeNCryptSubtype::X509Plain)
    );
    assert_eq!(
        VeNCryptAuth::negotiate_subtype(&codes(&[257, 260, 256, 259])),
        Ok(VeNCryptSubtype::TlsPlain)
    );
    assert_eq!(
        VeNCryptAuth::negotiate_subtype(&codes(&[257, 260, 256])),
        Ok(VeNCryptSubtype::Plain)
    );
    assert_eq!(
        VeNCryptAuth::negotiate_subtype(&codes(&[257, 260])),
        Ok(VeNCryptSubtype::X509None)
    );
    assert_eq!(VeNCryptAuth::negotiate_subtype(&codes(&[257])), Ok(VeNCryptSubtype::TlsNone));
    // Unknown numbers, and subtypes that the client does not perform, count for nothing.
    assert_eq!(
        VeNCryptAuth::negotiate_subtype(&codes(&[1, 258, 261, 263, 264, 9999])),
        Err(VncError::UnsupportedVencrypt)
    );
    assert_eq!(
        VeNCryptAuth::negotiate_subtype(&codes(&[9999, 257])),
        Ok(VeNCryptSubtype::TlsNone)
    );
    assert_eq!(VeNCryptAuth::negotiate_subtype(&[]), Err(VncError::UnsupportedVencrypt));
    assert_eq!(VeNCryptAuth::negotiate_subtype(&[0, 0, 1]), Err(VncError::Io));
}

#[test]
fn vencrypt_plain_credentials_are_length_prefixed() {
    let mut expected = vec![0, 0, 0, 4, 0, 0, 0, 4];
    expected.extend_from_slice(b"userpass");
    assert_eq!(VeNCryptAuth::authenticate_plain("user", "pass"), Ok(expected));
    assert_eq!(
        VeNCryptAuth::authenticate_plain("", "é"),
        Ok(vec![0, 0, 0, 0, 0, 0, 0, 2, 0xc3, 0xa9])
    );
}

#[test]
fn vencrypt_setup_tls_decides_on_the_upgrade() {
    assert_eq!(VeNCryptAuth::setup_tls(VeNCryptSubtype::Plain, false), Ok(false));
    assert_eq!(VeNCryptAuth::setup_tls(VeNCryptSubtype::Plain, true), Ok(false));
    assert_eq!(VeNCryptAuth::setup_tls(VeNCryptSubtype::TlsPlain, true), Ok(true));
    assert_eq!(
        VeNCryptAuth::setup_tls(VeNCryptSubtype::X509None, false),
        Err(VncError::UnsupportedVencrypt)
    );
}

fn walk(auth: VeNCryptAuth, inputs: &[&[u8]]) -> (Result<VeNCryptAuth, VncError>, Vec<u8>) {
    let mut auth = auth;
    let mut written = Vec::new();
    for input in inputs {
        match auth.authenticate(input) {
            Ok((next, output)) => {
                written.extend_from_slice(&output);
                auth = next;
            }
            Err(e) => return (Err(e), written),
        }
    }
    (Ok(auth), written)
}

#[test]
fn vencrypt_plain_subtype_needs_no_tls() {
    let auth = VeNCryptAuth::new("localhost".to_string(), None, Some("pw".to_string()));
    assert_eq!(auth.demand(), Demand::Read(2));
    let list = codes(&[256]);
    let (auth, written) = walk(auth, &[&[0, 2], &[0], &[1], &list, &[1]]);
    let auth = auth.unwrap();
    assert_eq!(auth.stage, VeNCryptStage::Done);
    assert_eq!(auth.demand(), Demand::Finished);
    assert!(auth.is_done());
    let mut expected = vec![0, 2, 0, 0, 1, 0];
    expected.extend_from_slice(&[0, 0, 0, 0, 0, 0, 0, 2, b'p', b'w']);
    assert_eq!(written, expected);
}

#[test]
fn vencrypt_tls_none_sends_no_credentials() {
    let auth = VeNCryptAuth::new("10.0.0.1".to_string(), None, None);
    let list = codes(&[257]);
    let (auth, written) = walk(auth, &[&[0, 2], &[0], &[1], &list, &[1]]);
    let auth = auth.unwrap();
    assert_eq!(auth.stage, VeNCryptStage::Upgrade { subtype: VeNCryptSubtype::TlsNone });
    assert_eq!(auth.demand(), Demand::StartTls("10.0.0.1".to_string()));
    assert_eq!(written, vec![0, 2, 0, 0, 1, 1]);
    let (auth, output) = auth.authenticate(&[]).unwrap();
    assert!(output.is_empty());
    assert!(auth.is_done());
}

#[test]
fn vencrypt_plain_subtype_without_password_is_refused_when_picked() {
    let auth = VeNCryptAuth::new("localhost".to_string(), Some("u".to_string()), None);
    let list = codes(&[259]);
    let (auth, written) = walk(auth, &[&[0, 2], &[0], &[1], &list]);
    assert_eq!(auth.err(), Some(VncError::MissingPassword));
    assert_eq!(written, vec![0, 2]);
}

#[test]
fn vencrypt_rejections_end_the_sub_handshake() {
    let fresh = || VeNCryptAuth::new("localhost".to_string(), None, Some("pw".to_string()));
    let list = codes(&[259]);
    assert_eq!(walk(fresh(), &[&[0, 2], &[1]]).0.err(), Some(VncError::UnsupportedVencrypt));
    assert_eq!(walk(fresh(), &[&[0, 2], &[0], &[0]]).0.err(), Some(VncError::UnsupportedVencrypt));
    assert_eq!(
        walk(fresh(), &[&[0, 2], &[0], &[1], &list, &[0]]).0.err(),
        Some(VncError::UnsupportedVencrypt)
    );
    assert_eq!(
        walk(fresh(), &[&[0, 2], &[0], &[1], &list, &[2]]).0.err(),
        Some(VncError::UnsupportedVencrypt)
    );
    assert_eq!(walk(fresh(), &[&[0, 2, 0]]).0.err(), Some(VncError::Io));
    // With the library's verdict on the name handed in, nothing else is asked.
    let (auth, _) = walk(fresh(), &[&[0, 2], &[0], &[1], &list]);
    assert_eq!(auth.unwrap().advance(&[1], false).err(), Some(VncError::UnsupportedVencrypt));
}
