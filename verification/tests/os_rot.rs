use helios_rot::error::{Error, OsRotErrorCode};
use helios_rot::ffi::{
    OsRotAttest, OsRotCerts, RawOsRotError, OS_ROT_DEV, OS_ROT_HASH_SIZE, OS_ROT_IOC_ATTEST,
    OS_ROT_IOC_GET_CERTS, OS_ROT_SIG_SIZE,
};
use helios_rot::flexible::alloc_flexible_struct;
use helios_rot::helios::{attestation_from_reply, HeliosOsRotError};
use helios_rot::os_rot::{attest_signature, CertsStep, GetCerts};
use helios_rot::{ArrayError, Attestation};
use rustix::io::Errno;

#[test]
fn chain_bytes_returns_reported_prefix() {
    let mut certs: Box<OsRotCerts> = alloc_flexible_struct(8).unwrap();
    certs.chain_size = 3;
    certs.chain[..3].copy_from_slice(&[0xAA, 0xBB, 0xCC]);
    assert_eq!(certs.chain_bytes().unwrap(), vec![0xAA, 0xBB, 0xCC]);
}

#[test]
fn chain_bytes_empty_chain() {
    let certs: Box<OsRotCerts> = alloc_flexible_struct(0).unwrap();
    assert!(certs.chain_bytes().unwrap().is_empty());
}

// The driver reports failures in the error field rather than through errno.
#[test]
fn chain_bytes_surfaces_driver_error() {
    let mut certs: Box<OsRotCerts> = alloc_flexible_struct(8).unwrap();
    certs.error = RawOsRotError(3);
    certs.chain_size = 3;

    assert!(matches!(
        certs.chain_bytes(),
        Err(Error::RotError(OsRotErrorCode::NoProvider))
    ));
}

#[test]
fn driver_error_hides_an_overlong_size() {
    let mut certs: Box<OsRotCerts> = alloc_flexible_struct(2).unwrap();
    certs.error = RawOsRotError(1);
    certs.chain_size = 3;
    assert!(matches!(certs.chain_bytes(), Err(Error::RotError(OsRotErrorCode::Size))));
}

#[test]
fn error_numbers() {
    assert_eq!(RawOsRotError(0).check_err(), Ok(()));
    assert_eq!(RawOsRotError(1).check_err(), Err(OsRotErrorCode::Size));
    assert_eq!(RawOsRotError(2).check_err(), Err(OsRotErrorCode::Dpe));
    assert_eq!(RawOsRotError(3).check_err(), Err(OsRotErrorCode::NoProvider));
    assert_eq!(RawOsRotError(4).check_err(), Err(OsRotErrorCode::Unknown(4)));
    assert_eq!(RawOsRotError(u32::MAX).check_err(), Err(OsRotErrorCode::Unknown(u32::MAX)));
}

#[test]
fn driver_interface_numbers() {
    assert_eq!(OS_ROT_DEV, "/dev/os_rot");
    assert_eq!(OS_ROT_IOC_GET_CERTS, 0x524f_5401);
    assert_eq!(OS_ROT_IOC_ATTEST, 0x524f_5402);
    assert_eq!(OS_ROT_IOC_ATTEST.to_be_bytes(), [b'R', b'O', b'T', 2]);
}

fn reply(error: u32, chain_size: u32, chain: &[u8]) -> Box<OsRotCerts> {
    Box::new(OsRotCerts { error: RawOsRotError(error), chain_size, chain: chain.to_vec() })
}

#[test]
fn probe_has_a_zero_length_buffer() {
    match GetCerts::start() {
        CertsStep::Ioctl { state, request } => {
            assert_eq!(state, GetCerts::Probe);
            assert_eq!(request.error, RawOsRotError(0));
            assert_eq!(request.chain_size, 0);
            assert!(request.chain.is_empty());
        }
        CertsStep::Done(_) => panic!("the driver was not probed"),
    }
}

#[test]
fn fetch_has_a_buffer_of_the_reported_size() {
    match GetCerts::Probe.step(Ok(reply(0, 5, &[]))) {
        CertsStep::Ioctl { state, request } => {
            assert_eq!(state, GetCerts::Fetch);
            assert_eq!(request.error, RawOsRotError(0));
            assert_eq!(request.chain_size, 5);
            assert_eq!(request.chain, [0u8; 5]);
        }
        CertsStep::Done(_) => panic!("the chain was not fetched"),
    }
}

#[test]
fn driver_chain_comes_through_whole() {
    let chain = [9u8, 8, 7, 6];
    let got = GetCerts::run(Ok(reply(0, 4, &[])), Ok(reply(0, 4, &chain))).unwrap();
    assert_eq!(got, chain);
}

#[test]
fn shorter_chain_is_cut_to_its_size() {
    let got = GetCerts::run(Ok(reply(0, 4, &[])), Ok(reply(0, 2, &[9, 8, 0, 0]))).unwrap();
    assert_eq!(got, [9, 8]);
}

#[test]
fn grown_chain_asks_for_a_retry() {
    let res = GetCerts::run(Ok(reply(0, 4, &[])), Ok(reply(1, 6, &[0; 4])));
    assert!(matches!(res, Err(Error::CertChainSize)));
}

#[test]
fn size_error_of_the_probe_is_no_retry() {
    let res = GetCerts::run(Ok(reply(1, 4, &[])), Ok(reply(0, 0, &[])));
    assert!(matches!(res, Err(Error::RotError(OsRotErrorCode::Size))));
}

#[test]
fn driver_errors_end_the_retrieval() {
    let res = GetCerts::run(Ok(reply(2, 4, &[])), Ok(reply(0, 0, &[])));
    assert!(matches!(res, Err(Error::RotError(OsRotErrorCode::Dpe))));
    let res = GetCerts::run(Ok(reply(0, 0, &[])), Ok(reply(77, 0, &[])));
    assert!(matches!(res, Err(Error::RotError(OsRotErrorCode::Unknown(77)))));
}

#[test]
fn failed_ioctls_end_the_retrieval() {
    let res = GetCerts::run(Err(Errno::NODEV), Ok(reply(0, 0, &[])));
    assert!(matches!(res, Err(Error::GetCertsIoctl { errno: Errno::NODEV })));
    let res = GetCerts::run(Ok(reply(0, 0, &[])), Err(Errno::INTR));
    assert!(matches!(res, Err(Error::GetCertsIoctl { errno: Errno::INTR })));
}

#[test]
fn implausible_size_is_refused() {
    let res = GetCerts::run(Ok(reply(0, 16_777_217, &[])), Ok(reply(0, 0, &[])));
    assert!(matches!(res, Err(Error::TooLarge { requested: 16_777_217 })));
}

#[test]
fn attest_request_holds_the_nonce() {
    let nonce = [7u8; OS_ROT_HASH_SIZE];
    let request = OsRotAttest::request(&nonce);
    assert_eq!(request.error, RawOsRotError(0));
    assert_eq!(request.nonce, nonce);
    assert_eq!(request.sig, [0u8; OS_ROT_SIG_SIZE]);
}

#[test]
fn attest_reply_gives_the_signature() {
    let mut reply = OsRotAttest::request(&[7; OS_ROT_HASH_SIZE]);
    reply.sig[95] = 1;
    let signature = attest_signature(Ok(reply)).unwrap();
    assert_eq!(signature.len(), 96);
    assert_eq!(signature[95], 1);
    match attestation_from_reply(Ok(signature)).unwrap() {
        Attestation::P384(bytes) => assert_eq!(bytes.0[95], 1),
    }
}

#[test]
fn attest_failures_are_told() {
    let mut reply = OsRotAttest::request(&[7; OS_ROT_HASH_SIZE]);
    reply.error = RawOsRotError(3);
    assert!(matches!(
        attest_signature(Ok(reply)),
        Err(Error::RotError(OsRotErrorCode::NoProvider))
    ));
    assert!(matches!(
        attest_signature(Err(Errno::IO)),
        Err(Error::AttestIoctl { errno: Errno::IO })
    ));
    assert!(matches!(
        attestation_from_reply(Err(Error::LayoutOverflow)),
        Err(HeliosOsRotError::OsRotError(Error::LayoutOverflow))
    ));
}

#[test]
fn signature_of_another_size_is_refused() {
    assert!(matches!(
        attestation_from_reply(Ok(vec![0; 95])),
        Err(HeliosOsRotError::SignatureSize(ArrayError::TryFromSliceError {
            expected: 96,
            actual: 95
        }))
    ));
}

#[test]
fn errors_convert() {
    assert!(matches!(
        Error::from(OsRotErrorCode::Dpe),
        Error::RotError(OsRotErrorCode::Dpe)
    ));
    assert!(matches!(
        HeliosOsRotError::from(Error::CertChainSize),
        HeliosOsRotError::OsRotError(Error::CertChainSize)
    ));
}

#[test]
fn over_reports_are_not_accepted() {
    assert!(reply(0, 3, &[1, 2]).claims_too_much());
    assert!(!reply(0, 2, &[1, 2]).claims_too_much());
    assert!(!reply(1, 3, &[1, 2]).claims_too_much());
    assert!(!GetCerts::Fetch.accepts(&Ok(reply(0, 3, &[1, 2]))));
    assert!(GetCerts::Fetch.accepts(&Ok(reply(0, 2, &[1, 2]))));
    assert!(GetCerts::Fetch.accepts(&Err(Errno::IO)));
    assert!(GetCerts::Probe.accepts(&Ok(reply(0, 3, &[]))));
}
