use openssl::asn1::Asn1Time;
use openssl::ec::{EcGroup, EcKey};
use openssl::hash::MessageDigest;
use openssl::nid::Nid;
use openssl::pkey::PKey;
use openssl::x509::X509;
use spacetimedb_lib::root_cert::{
    load_root_cert_with, plan_root_cert, root_cert_notice, root_cert_pem, settle_root_cert,
    RootCertError, RootCertPlan,
};
use spacetimedb_lib::{load_root_cert, MAX_CERT_BUNDLE_SIZE, MAX_KEY_FILE_SIZE};

/// A certificate that signed itself, as DER and as PEM.
fn certificate() -> (Vec<u8>, Vec<u8>) {
    let group = EcGroup::from_curve_name(Nid::X9_62_PRIME256V1).unwrap();
    let key = PKey::from_ec_key(EcKey::generate(&group).unwrap()).unwrap();
    let mut builder = X509::builder().unwrap();
    builder.set_pubkey(&key).unwrap();
    builder.set_not_before(&Asn1Time::days_from_now(0).unwrap()).unwrap();
    builder.set_not_after(&Asn1Time::days_from_now(1).unwrap()).unwrap();
    builder.sign(&key, MessageDigest::sha256()).unwrap();
    let cert = builder.build();
    (cert.to_der().unwrap(), cert.to_pem().unwrap())
}

#[test]
fn a_pem_file_is_a_certificate() {
    let (der, pem) = certificate();
    let loaded = load_root_cert(pem).unwrap();
    assert_eq!(loaded.to_der().unwrap(), der);
}

#[test]
fn the_first_certificate_of_a_bundle_is_taken() {
    let (der, pem) = certificate();
    let (_, other) = certificate();
    let bundle = [pem, other].concat();
    assert_eq!(load_root_cert(bundle).unwrap().to_der().unwrap(), der);
}

#[test]
fn a_file_that_is_not_text_is_refused() {
    let (der, _) = certificate();
    let error = load_root_cert(der).err().unwrap();
    assert!(matches!(error, RootCertError::NotUtf8(_)));
    assert_eq!(error.message("a.crt"), "Certificate file is not valid UTF-8: a.crt");
}

#[test]
fn a_text_that_is_not_a_certificate_is_refused() {
    for text in ["", "hello", "-----BEGIN CERTIFICATE-----\n-----END CERTIFICATE-----\n"] {
        let error = load_root_cert(text.as_bytes().to_vec()).err().unwrap();
        assert!(matches!(error, RootCertError::NotPem(_)));
        assert_eq!(error.message("a.crt"), "Failed to parse PEM certificate: a.crt");
    }
}

#[test]
fn the_text_of_a_file_is_kept() {
    let text = root_cert_pem::<()>("grün".as_bytes().to_vec());
    assert_eq!(text.unwrap(), "grün");
    let error = root_cert_pem::<()>(vec![b'a', 0xFF]).unwrap_err();
    assert!(matches!(error, RootCertError::NotUtf8(_)));
    assert_eq!(RootCertError::<()>::Read.message("p"), "Failed to read certificate file: p");
}

#[test]
fn what_was_parsed_is_passed_on() {
    assert!(matches!(settle_root_cert::<u8, u8>(Ok(3)), Ok(3)));
    assert!(matches!(settle_root_cert::<u8, u8>(Err(4)), Err(RootCertError::NotPem(4))));
}

#[test]
fn the_parser_is_handed_what_the_file_holds() {
    let parsed = load_root_cert_with("grün".as_bytes().to_vec(), |pem: &[u8]| {
        Ok::<Vec<u8>, u8>(pem.to_vec())
    });
    assert_eq!(parsed.unwrap(), "grün".as_bytes());
    let refused = load_root_cert_with(vec![b'a'], |pem: &[u8]| Err::<u8, usize>(pem.len()));
    assert!(matches!(refused, Err(RootCertError::NotPem(1))));
    let not_text = load_root_cert_with(vec![0xFF], |_: &[u8]| Ok::<u8, u8>(0));
    assert!(matches!(not_text, Err(RootCertError::NotUtf8(_))));
}

#[test]
fn only_a_named_certificate_is_read() {
    assert_eq!(plan_root_cert(None), RootCertPlan::NoCertificate);
    assert_eq!(plan_root_cert(Some("a.crt")), RootCertPlan::ReadFile { max_size: 1024 * 1024 });
    assert_eq!(MAX_CERT_BUNDLE_SIZE, 1024 * 1024);
    assert_eq!(MAX_KEY_FILE_SIZE, 64 * 1024);
}

#[test]
fn the_user_is_told_what_is_trusted() {
    assert_eq!(
        root_cert_notice(Some("a.crt")),
        "Added trusted certificate from a.crt for a new TLS connection."
    );
    assert_eq!(
        root_cert_notice(None),
        "No trusted certificate specified via --cert for this new connection, thus if you used local CA or self-signed server certificate, you may get an error like '(unable to get local issuer certificate)' next."
    );
}
