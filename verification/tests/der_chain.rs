use helios_rot::der_chain::{take_certificate, MAX_DER_INPUT};
use helios_rot::helios::{certificates_from_reply, HeliosOsRotError};
use helios_rot::{load_der_chain, Certificate, Error, PkiPath};
use p384::ecdsa::signature::Signer;
use p384::ecdsa::{DerSignature, SigningKey, VerifyingKey};
use std::str::FromStr;
use std::time::Duration;
use x509_cert::certificate::{TbsCertificate, Version};
use x509_cert::der::asn1::{BitString, ObjectIdentifier};
use x509_cert::der::{Decode, Encode, ErrorKind};
use x509_cert::name::Name;
use x509_cert::serial_number::SerialNumber;
use x509_cert::spki::{AlgorithmIdentifierOwned, SubjectPublicKeyInfoOwned};
use x509_cert::time::Validity;

fn root_cert(subject: &str) -> Certificate {
    let key = SigningKey::from_slice(&[3u8; 48]).expect("signing key");
    let name = Name::from_str(subject).expect("name");
    let algorithm = AlgorithmIdentifierOwned {
        // ecdsa-with-SHA384
        oid: ObjectIdentifier::new_unwrap("1.2.840.10045.4.3.3"),
        parameters: None,
    };
    let tbs_certificate = TbsCertificate {
        version: Version::V3,
        serial_number: SerialNumber::from(1u32),
        signature: algorithm.clone(),
        issuer: name.clone(),
        validity: Validity::from_now(Duration::from_secs(1000)).expect("validity"),
        subject: name,
        subject_public_key_info: SubjectPublicKeyInfoOwned::from_key(VerifyingKey::from(&key))
            .expect("public key"),
        issuer_unique_id: None,
        subject_unique_id: None,
        extensions: None,
    };
    let signature: DerSignature = key.sign(&tbs_certificate.to_der().expect("encode TBS"));
    let cert = x509_cert::Certificate {
        tbs_certificate,
        signature_algorithm: algorithm,
        signature: BitString::from_bytes(signature.as_bytes()).expect("signature bits"),
    };
    Certificate { der: cert.to_der().expect("encode cert as DER") }
}

/// Build a chain of `count` root certs as concatenated DER, the format
/// returned by the os_rot driver.
fn der_chain(count: usize) -> (PkiPath, Vec<u8>) {
    let certs = vec![root_cert("CN=root"); count];
    let mut raw = Vec::new();
    for cert in &certs {
        raw.extend_from_slice(&cert.der);
    }
    (certs, raw)
}

#[test]
fn load_der_chain_success() {
    let (certs, raw) = der_chain(2);
    assert_eq!(load_der_chain(&raw).expect("load DER chain"), certs);
}

#[test]
fn load_der_chain_empty() {
    assert!(load_der_chain(&[]).expect("load empty chain").is_empty());
}

#[test]
fn load_der_chain_truncated() {
    let (_, raw) = der_chain(2);
    assert!(load_der_chain(&raw[..raw.len() - 1]).is_err());
}

#[test]
fn certificates_keep_their_order() {
    let (a, b) = (root_cert("CN=first"), root_cert("CN=second,O=other"));
    assert_ne!(a, b);
    let mut raw = a.der.clone();
    raw.extend_from_slice(&b.der);
    let certs = load_der_chain(&raw).expect("load DER chain");
    assert_eq!(certs, vec![a, b]);
    for cert in &certs {
        let decoded = x509_cert::Certificate::from_der(&cert.der).expect("decode certificate");
        assert_eq!(decoded.to_der().expect("encode certificate"), cert.der);
    }
}

#[test]
fn chain_is_accepted_only_up_to_whole_certificates() {
    let (certs, raw) = der_chain(2);
    let one = certs[0].der.len();
    for k in 0..raw.len() {
        let cut = load_der_chain(&raw[..k]);
        if k == 0 {
            assert!(cut.expect("empty chain").is_empty());
        } else if k == one {
            assert_eq!(cut.expect("chain of one"), certs[..1]);
        } else {
            assert!(cut.is_err());
        }
    }
}

#[test]
fn trailing_byte_is_an_error() {
    let (_, mut raw) = der_chain(1);
    raw.push(0);
    assert!(load_der_chain(&raw).is_err());
}

#[test]
fn other_der_is_no_certificate() {
    // An INTEGER.
    assert!(load_der_chain(&[0x02, 0x01, 0x2A]).is_err());
    // An empty SEQUENCE.
    assert!(load_der_chain(&[0x30, 0x00]).is_err());
}

#[test]
fn error_tells_the_place_in_the_chain() {
    let (_, mut raw) = der_chain(1);
    let first = raw.len();
    raw.extend_from_slice(&[0x30, 0x7f]);
    let error = load_der_chain(&raw).unwrap_err();
    let position = error.position().expect("position of the error");
    assert!(u32::from(position) as usize >= first);
}

#[test]
fn overlong_input_is_refused() {
    let raw = vec![0u8; MAX_DER_INPUT + 1];
    let error = load_der_chain(&raw).unwrap_err();
    assert_eq!(error.kind(), ErrorKind::Overflow);
    let error = load_der_chain(&raw[1..]).unwrap_err();
    assert_ne!(error.kind(), ErrorKind::Overflow);
}

#[test]
fn taking_up_what_was_decoded() {
    let mut certs: PkiPath = vec![Certificate { der: vec![1] }];
    let raw = [1u8, 2, 3, 4];
    assert_eq!(take_certificate(&mut certs, &raw, 1, Ok(3)), Ok(3));
    assert_eq!(certs, vec![Certificate { der: vec![1] }, Certificate { der: vec![2, 3] }]);
    let error = x509_cert::der::Error::from(ErrorKind::Failed);
    assert_eq!(take_certificate(&mut certs, &raw, 3, Err(error)), Err(error));
    assert_eq!(certs.len(), 2);
}

#[test]
fn certificates_of_a_reply() {
    let (certs, raw) = der_chain(3);
    assert_eq!(certificates_from_reply(Ok(raw)).expect("certificates"), certs);
    assert!(matches!(
        certificates_from_reply(Ok(vec![0x30])),
        Err(HeliosOsRotError::DerError(_))
    ));
    assert!(matches!(
        certificates_from_reply(Err(Error::CertChainSize)),
        Err(HeliosOsRotError::OsRotError(Error::CertChainSize))
    ));
}
