//! Errors of the `os_rot` driver interface.

use vstd::prelude::*;

use crate::ffi::{OS_ROT_E_DPE, OS_ROT_E_NO_PROVIDER, OS_ROT_E_OK, OS_ROT_E_SIZE, RawOsRotError};

verus! {

/// An I/O error of the operating system, carried unread.
#[verifier::external_type_specification]
#[verifier::external_body]
pub struct ExIoError(std::io::Error);

/// An error number that a system call ended with, carried unread.
#[verifier::external_type_specification]
#[verifier::external_body]
pub struct ExErrno(rustix::io::Errno);

/// An error talking to the os_rot driver.
#[derive(Debug)]
#[non_exhaustive]
pub enum Error {
    /// The os_rot device could not be opened.
    DevicePath(std::io::Error),
    /// The `OS_ROT_IOC_GET_CERTS` ioctl call failed.
    GetCertsIoctl { errno: rustix::io::Errno },
    /// The cert chain size changed between the two requests; retry.
    CertChainSize,
    /// The `OS_ROT_IOC_ATTEST` ioctl call failed.
    AttestIoctl { errno: rustix::io::Errno },
    /// The layout of a flexible array overflowed.
    LayoutOverflow,
    /// The kernel reported an implausibly large size.
    TooLarge { requested: usize },
    /// The driver reported a failure.
    RotError(OsRotErrorCode),
}

/// An `os_rot_error_t` value reported by the driver in the error field of an
/// ioctl struct.
#[derive(Debug, Clone, Copy, PartialEq, Eq, Structural)]
#[non_exhaustive]
pub enum OsRotErrorCode {
    /// Not enough space to write result, the necessary size is returned
    /// (e.g., as `osrc_chain_size` in `os_rot_certs_t`).
    Size,
    /// Encountered an unexpected DPE error.
    Dpe,
    /// No DPE provider backing the driver is available (yet).  The DPE
    /// provider driver attaches asynchronously relative to os_rot; the
    /// caller may retry later.
    NoProvider,
    /// Unknown error from the driver, note that the driver is free to add new
    /// enum members in the future to `os_rot_error_t`.
    Unknown(u32),
}

impl From<OsRotErrorCode> for Error {
    fn from(code: OsRotErrorCode) -> (res: Self) {
        Error::RotError(code)
    }
}

impl vstd::std_specs::convert::FromSpecImpl<OsRotErrorCode> for Error {
    open spec fn obeys_from_spec() -> bool {
        true
    }

    open spec fn from_spec(code: OsRotErrorCode) -> Self {
        Error::RotError(code)
    }
}

impl RawOsRotError {
    /// What the driver reported: nothing wrong, or the failure that the number stands for.
    pub open spec fn outcome(self) -> Result<(), OsRotErrorCode> {
        if self.0 == OS_ROT_E_OK {
            Ok(())
        } else if self.0 == OS_ROT_E_SIZE {
            Err(OsRotErrorCode::Size)
        } else if self.0 == OS_ROT_E_DPE {
            Err(OsRotErrorCode::Dpe)
        } else if self.0 == OS_ROT_E_NO_PROVIDER {
            Err(OsRotErrorCode::NoProvider)
        } else {
            Err(OsRotErrorCode::Unknown(self.0))
        }
    }

    /// Tells a driver's success from its failures.
    pub fn check_err(&self) -> (res: Result<(), OsRotErrorCode>)
        ensures
            res == self.outcome(),
    {
        match self.0 {
            OS_ROT_E_OK => Ok(()),
            OS_ROT_E_SIZE => Err(OsRotErrorCode::Size),
            OS_ROT_E_DPE => Err(OsRotErrorCode::Dpe),
            OS_ROT_E_NO_PROVIDER => Err(OsRotErrorCode::NoProvider),
            _ => Err(OsRotErrorCode::Unknown(self.0)),
        }
    }
}

/// Different numbers from the driver are different outcomes: none is lost.
pub proof fn law_outcomes_tell_numbers_apart(a: RawOsRotError, b: RawOsRotError)
    requires
        a.outcome() == b.outcome(),
    ensures
        a == b,
{
}

/// Zero is the driver's only success, one, two and three are the failures that it gives a
/// meaning to, and any other number is kept as it is.
pub proof fn law_driver_numbers(error: RawOsRotError, res: Result<(), OsRotErrorCode>)
    requires
        call_ensures(RawOsRotError::check_err, (&error,), res),
    ensures
        res == error.outcome(),
        res is Ok <==> error.0 == 0,
        res == Err::<(), OsRotErrorCode>(OsRotErrorCode::Size) <==> error.0 == 1,
        res == Err::<(), OsRotErrorCode>(OsRotErrorCode::Dpe) <==> error.0 == 2,
        res == Err::<(), OsRotErrorCode>(OsRotErrorCode::NoProvider) <==> error.0 == 3,
        error.0 > 3 ==> res == Err::<(), OsRotErrorCode>(OsRotErrorCode::Unknown(error.0)),
{
}

/// A driver's failure is carried in the error unchanged.
pub proof fn law_driver_failure_is_kept(code: OsRotErrorCode)
    ensures
        <Error as vstd::std_specs::convert::FromSpec<OsRotErrorCode>>::from_spec(code)
            == Error::RotError(code),
{
}

} // verus!
