//! The structures and numbers of the `os_rot` driver interface.

use vstd::prelude::*;

verus! {

/// The set of errors returned to os_rot ioctl consumers (os_rot_error_t).
#[derive(Debug, Clone, Copy, PartialEq, Eq, Structural)]
pub struct RawOsRotError(pub u32);

/// `os_rot_error_t` discriminants.
pub const OS_ROT_E_OK: u32 = 0;

pub const OS_ROT_E_SIZE: u32 = 1;

pub const OS_ROT_E_DPE: u32 = 2;

pub const OS_ROT_E_NO_PROVIDER: u32 = 3;

/// The path to the os_rot device to issue ioctls.
pub const OS_ROT_DEV: &'static str = "/dev/os_rot";

/// Measurements are assumed to be SHA2-384 digests.
pub const OS_ROT_HASH_SIZE: usize = 48;

/// Attestations are assumed to be 384-bit ECDSA signatures.
pub const OS_ROT_SIG_SIZE: usize = 96;

/// os_rot IOCTLs: the letters `R`, `O` and `T` in the upper three bytes.
pub const OS_ROT_IOC: u32 = (0x52 << 24) | (0x4f << 16) | (0x54 << 8);

/// Retrieve the certificate chain that links our attestation signing keys to
/// a trusted PKI root (os_rot_certs_t).
pub const OS_ROT_IOC_GET_CERTS: u32 = OS_ROT_IOC | 0x01;

/// Provides an attestation over the current set of measurements with a given
/// nonce for freshness and returns the resulting signature (os_rot_attest_t).
///
/// The attestation is a signature over the SHA2-384 digest of the
/// caller-provided nonce (which should be random).
pub const OS_ROT_IOC_ATTEST: u32 = OS_ROT_IOC | 0x02;

/// When `chain_size` is 0 on input, the driver returns the required size.
/// Otherwise it fills `chain` with the certificate chain data.
#[derive(Debug)]
pub struct OsRotCerts {
    pub error: RawOsRotError,
    pub chain_size: u32,
    pub chain: Vec<u8>,
}

/// The caller provides `nonce` which the driver uses to provide an attestation
/// signature.
#[derive(Debug)]
pub struct OsRotAttest {
    pub error: RawOsRotError,
    pub nonce: [u8; OS_ROT_HASH_SIZE],
    pub sig: [u8; OS_ROT_SIG_SIZE],
}

} // verus!
