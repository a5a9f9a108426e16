use helios_rot::mock::{FileText, LoadStep, MockLoad};
use helios_rot::pem::{answered, blank, cut_in_header, stalling};
use helios_rot::{
    Array, ArrayError, Attestation, Certificate, HeliosRotMock, HeliosRotMockError, Nonce,
};
use p384::ecdsa::signature::{SignatureEncoding, Signer, Verifier};
use p384::ecdsa::{DerSignature, Signature, SigningKey, VerifyingKey};
use p384::pkcs8::{DecodePrivateKey, EncodePrivateKey};
use std::io::ErrorKind;
use std::path::PathBuf;
use std::str::FromStr;
use std::time::Duration;
use x509_cert::certificate::{TbsCertificate, Version};
use x509_cert::der::asn1::{BitString, ObjectIdentifier};
use x509_cert::der::pem::LineEnding;
use x509_cert::der::{Encode, EncodePem};
use x509_cert::name::Name;
use x509_cert::serial_number::SerialNumber;
use x509_cert::spki::{AlgorithmIdentifierOwned, SubjectPublicKeyInfoOwned};
use x509_cert::time::Validity;

fn alias_key() -> SigningKey {
    SigningKey::from_slice(&[5u8; 48]).expect("signing key")
}

fn root_cert() -> x509_cert::Certificate {
    let key = alias_key();
    let name = Name::from_str("CN=root").expect("name");
    let algorithm = AlgorithmIdentifierOwned {
        // ecdsa-with-SHA384
        oid: ObjectIdentifier::new_unwrap("1.2.840.10045.4.3.3"),
        parameters: None,
    };
    let tbs_certificate = TbsCertificate {
        version: Version::V3,
        serial_number: SerialNumber::from(1u32),
        signature: algorithm.clone(),
        issuer: name.clone(),
        validity: Validity::from_now(Duration::from_secs(1000)).expect("validity"),
        subject: name,
        subject_public_key_info: SubjectPublicKeyInfoOwned::from_key(VerifyingKey::from(&key))
            .expect("public key"),
        issuer_unique_id: None,
        subject_unique_id: None,
        extensions: None,
    };
    let signature: DerSignature = key.sign(&tbs_certificate.to_der().expect("encode TBS"));
    x509_cert::Certificate {
        tbs_certificate,
        signature_algorithm: algorithm,
        signature: BitString::from_bytes(signature.as_bytes()).expect("signature bits"),
    }
}

fn cert_pem() -> String {
    root_cert().to_pem(LineEnding::LF).expect("certificate as PEM")
}

fn key_pem() -> String {
    alias_key().to_pkcs8_pem(LineEnding::LF).expect("key as PEM").to_string()
}

fn missing() -> FileText {
    Err(std::io::Error::from(ErrorKind::NotFound))
}

fn path(name: &str) -> PathBuf {
    PathBuf::from(name)
}

fn loaded() -> HeliosRotMock {
    HeliosRotMock::load(path("root.cert.pem"), Ok(cert_pem()), path("root.key.pem"), Ok(key_pem()))
        .expect("load cert chain & key")
}

#[test]
fn bad_path_to_key() {
    let res = HeliosRotMock::load(path("root.cert.pem"), Ok(cert_pem()), path("foo"), missing());
    assert!(res.is_err());
    match res {
        Err(HeliosRotMockError::FileRead { path: at, error }) => {
            assert_eq!(at, path("foo"));
            assert_eq!(error.kind(), ErrorKind::NotFound);
        }
        _ => panic!("another outcome"),
    }
}

#[test]
fn bad_path_to_certs() {
    let res = HeliosRotMock::load(path("foo"), missing(), path("root.key.pem"), Ok(key_pem()));
    assert!(res.is_err());
    assert!(matches!(
        res,
        Err(HeliosRotMockError::FileRead { path: at, .. }) if at == path("foo")
    ));
}

#[test]
fn load_success() {
    let res = HeliosRotMock::load(
        path("root.cert.pem"),
        Ok(cert_pem()),
        path("root.key.pem"),
        Ok(key_pem()),
    );
    assert!(res.is_ok());
}

#[test]
fn attest() {
    let mock = loaded();
    let nonce = Nonce::from_platform_rng(48).expect("get Nonce from RNG");
    let attestation = mock.attest(&nonce).expect("attest to nonce");
    let signing_key =
        SigningKey::from_pkcs8_pem(&key_pem()).expect("signing_key from pkcs8 string");

    let verifying_key = VerifyingKey::from(signing_key);
    match attestation {
        Attestation::P384(a) => {
            let sig = Signature::from_slice(a.as_ref())
                .expect("signature from Attestation::P384 bytes");
            let ret = verifying_key.verify(nonce.as_ref(), &sig);
            assert!(ret.is_ok());
        }
    }
}

#[test]
fn attestations_of_other_nonces_differ() {
    let mock = loaded();
    let first = mock.attest(&Nonce::N48(Array([1; 48]))).expect("attest to nonce");
    let again = mock.attest(&Nonce::N48(Array([1; 48]))).expect("attest to nonce");
    let other = mock.attest(&Nonce::N48(Array([2; 48]))).expect("attest to nonce");
    let Attestation::P384(first) = first;
    let Attestation::P384(again) = again;
    let Attestation::P384(other) = other;
    assert_eq!(first, again);
    assert_ne!(first, other);
}

#[test]
fn attestation_is_confirmed_for_its_nonce_alone() {
    let mock = loaded();
    let nonce = Nonce::from_platform_rng(48).expect("get Nonce from RNG");
    let attestation = mock.attest(&nonce).expect("attest to nonce");
    assert!(mock.confirms(&nonce, &attestation));
    assert!(!mock.confirms(&Nonce::N48(Array([1; 48])), &attestation));
    let Attestation::P384(mut signature) = attestation;
    signature.0[0] ^= 1;
    assert!(!mock.confirms(&nonce, &Attestation::P384(signature)));
    assert!(!mock.confirms(&nonce, &Attestation::P384(Array([0; 96]))));
}

#[test]
fn signature_size_is_that_of_p384() {
    assert_eq!(
        helios_rot::helios::SIGNATURE_SIZE,
        std::mem::size_of::<<Signature as SignatureEncoding>::Repr>()
    );
}

#[test]
fn certificates_are_those_of_the_file() {
    let cert = root_cert();
    let der = cert.to_der().expect("certificate as DER");
    let pem = cert.to_pem(LineEnding::LF).expect("certificate as PEM");
    let chain = format!("{}{}", pem, pem);
    let mock = HeliosRotMock::load(path("certs"), Ok(chain), path("key"), Ok(key_pem()))
        .expect("load cert chain & key");
    let one = Certificate { der };
    assert_eq!(mock.get_certificates().expect("certificates"), vec![one.clone(), one]);
}

#[test]
fn bad_certs_are_told() {
    let res = HeliosRotMock::load(
        path("certs"),
        Ok(String::from("no certificate")),
        path("key"),
        missing(),
    );
    assert!(matches!(res, Err(HeliosRotMockError::DerError(_))));
}

#[test]
fn bad_key_is_told() {
    let res = HeliosRotMock::load(
        path("certs"),
        Ok(cert_pem()),
        path("key"),
        Ok(String::from("no key")),
    );
    assert!(matches!(
        res,
        Err(HeliosRotMockError::SigningKeyDecode { path: at, .. }) if at == path("key")
    ));
}

#[test]
fn certs_are_read_before_the_key() {
    let load = MockLoad::start(path("certs"), path("key"));
    assert_eq!(*load.path(), path("certs"));
    let load = match load.step(Ok(cert_pem())) {
        LoadStep::Read(load) => load,
        LoadStep::Done(_) => panic!("the key was not read"),
    };
    assert_eq!(*load.path(), path("key"));
    assert!(matches!(load.step(Ok(key_pem())), LoadStep::Done(Ok(_))));
}

#[test]
fn going_on_from_decoded_files() {
    let error = x509_cert::der::Error::from(x509_cert::der::ErrorKind::Failed);
    assert!(matches!(
        MockLoad::after_certs(path("key"), Err(error)),
        LoadStep::Done(Err(HeliosRotMockError::DerError(e))) if e == error
    ));
    assert!(matches!(
        MockLoad::after_certs(path("key"), Ok(vec![])),
        LoadStep::Read(MockLoad::AliasKey { chain, alias })
            if chain.is_empty() && alias == path("key")
    ));
    let certs = vec![Certificate { der: vec![1, 2] }];
    match MockLoad::after_alias(certs.clone(), path("key"), Ok(vec![5; 48])) {
        LoadStep::Done(Ok(mock)) => {
            assert_eq!(mock.get_certificates().expect("certificates"), certs);
            let nonce = Nonce::N48(Array([1; 48]));
            let Attestation::P384(ours) = mock.attest(&nonce).expect("attest to nonce");
            let Attestation::P384(theirs) = loaded().attest(&nonce).expect("attest to nonce");
            assert_eq!(ours, theirs);
        }
        _ => panic!("another outcome"),
    }
    assert!(matches!(
        MockLoad::after_alias(certs, path("key"), Err(p384::pkcs8::Error::KeyMalformed)),
        LoadStep::Done(Err(HeliosRotMockError::SigningKeyDecode {
            path: at,
            error: p384::pkcs8::Error::KeyMalformed
        })) if at == path("key")
    ));
}

#[test]
fn attestation_of_a_signature() {
    let Attestation::P384(bytes) = HeliosRotMock::attestation(Ok(vec![9; 96])).expect("attestation");
    assert_eq!(bytes.0, [9; 96]);
    assert!(matches!(
        HeliosRotMock::attestation(Ok(vec![9; 48])),
        Err(HeliosRotMockError::SignatureSize(ArrayError::TryFromSliceError {
            expected: 96,
            actual: 48
        }))
    ));
    assert!(matches!(
        HeliosRotMock::attestation(Err(p384::ecdsa::Error::new())),
        Err(HeliosRotMockError::SigningError(_))
    ));
}

#[test]
fn key_that_is_no_scalar_does_not_sign() {
    let mock = match MockLoad::after_alias(vec![], path("key"), Ok(vec![0; 48])) {
        LoadStep::Done(Ok(mock)) => mock,
        _ => panic!("another outcome"),
    };
    let res = mock.attest(&Nonce::N48(Array([1; 48])));
    assert!(matches!(res, Err(HeliosRotMockError::SigningError(_))));
}

const CUT_AFTER_TAG: &str = "-----BEGIN CERTIFICATE-----\nMA==\n-----END CERTIFICATE-----\n";
const CUT_IN_LENGTH: &str = "-----BEGIN CERTIFICATE-----\nMII=\n-----END CERTIFICATE-----\n";
const EMPTY_SEQUENCE: &str = "-----BEGIN CERTIFICATE-----\nMAA=\n-----END CERTIFICATE-----\n";

#[test]
fn headers_that_are_cut() {
    assert!(cut_in_header(&[]));
    assert!(cut_in_header(&[0x30]));
    assert!(cut_in_header(&[0xbe]));
    assert!(cut_in_header(&[0x30, 0x82]));
    assert!(cut_in_header(&[0x30, 0x82, 1]));
    assert!(cut_in_header(&[0x02, 0x84, 1, 2, 3]));
    assert!(!cut_in_header(&[0x30, 0x84, 1, 2, 3, 4]));
    assert!(!cut_in_header(&[0x30, 0]));
    assert!(!cut_in_header(&[0x30, 0x7f]));
    assert!(!cut_in_header(&[0x30, 0x80]));
    assert!(!cut_in_header(&[0x30, 0x85]));
    assert!(!cut_in_header(&[0x00]));
    assert!(!cut_in_header(&[0x10]));
    assert!(!cut_in_header(&[0x1f]));
    assert!(!cut_in_header(&[0x5f, 0x82]));
}

#[test]
fn tags_are_those_of_der() {
    for byte in 0..=255u8 {
        assert_eq!(cut_in_header(&[byte]), x509_cert::der::Tag::try_from(byte).is_ok());
    }
}

#[test]
fn documents_that_break_off_stall() {
    assert!(stalling(CUT_AFTER_TAG.as_bytes()));
    assert!(stalling(CUT_IN_LENGTH.as_bytes()));
    assert!(stalling(format!("{}{}", cert_pem(), CUT_AFTER_TAG).as_bytes()));
    assert!(stalling(format!("preamble\n{}\r\n\r\n", CUT_AFTER_TAG).as_bytes()));
    assert!(stalling(CUT_AFTER_TAG.replace('\n', "\r\n").as_bytes()));
}

#[test]
fn documents_that_do_not_stall() {
    assert!(!stalling(b""));
    assert!(!stalling(b"no certificate"));
    assert!(!stalling(cert_pem().as_bytes()));
    assert!(!stalling(format!("{}{}", cert_pem(), cert_pem()).as_bytes()));
    assert!(!stalling(EMPTY_SEQUENCE.as_bytes()));
    // What is no certificate ends the reading before the rest is come to.
    assert!(!stalling(format!("{}{}", EMPTY_SEQUENCE, CUT_AFTER_TAG).as_bytes()));
    // Another label is refused before the bytes are read.
    assert!(!stalling(
        b"-----BEGIN CERT-----\nMA==\n-----END CERT-----\n-----END CERTIFICATE-----"
    ));
    assert!(!stalling(&CUT_AFTER_TAG.as_bytes()[..CUT_AFTER_TAG.len() - 2]));
}

#[test]
fn blank_documents() {
    assert!(blank(b""));
    assert!(blank(b"\r\n\n"));
    assert!(!blank(b"\n \n"));
    assert!(!answered(b"\n"));
    assert!(!answered(CUT_AFTER_TAG.as_bytes()));
    assert!(answered(b"x"));
    assert!(answered(cert_pem().as_bytes()));
}

#[test]
fn answered_documents_are_answered() {
    for pem in [
        String::from("x"),
        String::from("no certificate"),
        String::from(EMPTY_SEQUENCE),
        format!("{}{}", EMPTY_SEQUENCE, CUT_AFTER_TAG),
        format!("{}\n\n", cert_pem()),
    ] {
        assert!(answered(pem.as_bytes()));
        let got = HeliosRotMock::load(path("certs"), Ok(pem.clone()), path("key"), Ok(key_pem()));
        let theirs = x509_cert::Certificate::load_pem_chain(pem.as_bytes());
        match (got, theirs) {
            (Ok(mock), Ok(certs)) => {
                assert_eq!(mock.get_certificates().expect("certificates").len(), certs.len());
            }
            (Err(HeliosRotMockError::DerError(e)), Err(expected)) => assert_eq!(e, expected),
            _ => panic!("another outcome"),
        }
    }
}

#[test]
fn unanswered_texts_are_not_accepted() {
    let load = MockLoad::start(path("certs"), path("key"));
    assert!(!load.accepts(&Ok(String::from("\r\n"))));
    assert!(!load.accepts(&Ok(String::from(CUT_IN_LENGTH))));
    assert!(load.accepts(&Ok(cert_pem())));
    assert!(load.accepts(&missing()));
    let load = MockLoad::AliasKey { chain: vec![], alias: path("key") };
    assert!(load.accepts(&Ok(String::from(CUT_IN_LENGTH))));
}

#[test]
fn trying_to_load() {
    let cut = Ok(String::from(CUT_AFTER_TAG));
    assert!(HeliosRotMock::try_load(path("certs"), cut, path("key"), Ok(key_pem())).is_none());
    let empty = Ok(String::new());
    assert!(HeliosRotMock::try_load(path("certs"), empty, path("key"), missing()).is_none());
    let res = HeliosRotMock::try_load(path("certs"), Ok(cert_pem()), path("key"), Ok(key_pem()));
    assert!(matches!(res, Some(Ok(_))));
    let res = HeliosRotMock::try_load(path("certs"), missing(), path("key"), Ok(key_pem()));
    assert!(matches!(
        res,
        Some(Err(HeliosRotMockError::FileRead { path: at, .. })) if at == path("certs")
    ));
}
