//! Attestation by the root of trust (RoT) of a Helios host.
//!
//! The OS driver makes use of the DICE Protection Environment (DPE) present on the AMD CPU to
//! measure and attest to the phase 1 and 2 images. This library holds what there is to decide
//! and to compute around it:
//!
//! - [`ffi`] and [`error`] give the structures, numbers and errors of the `os_rot` driver;
//! - [`layout`] and [`flexible`] size and make the buffers that end in a flexible array;
//! - [`image`] lays such a buffer out in memory, and reads it back;
//! - [`os_rot`] makes the requests to the driver and judges its replies;
//! - [`der_chain`] splits a certificate chain into its certificates, and [`pem`] does so for
//!   one in a PEM document;
//! - [`array`], [`nonce`] and [`helios`] hold nonces, signatures and attestations;
//! - [`mock`] stands in for the RoT with a key from a file.
//!
//! Opening the device, issuing ioctls and reading files is left to the caller.

pub mod array;
pub mod der_chain;
pub mod error;
pub mod ffi;
pub mod flexible;
pub mod helios;
pub mod image;
pub mod layout;
pub mod mock;
pub mod nonce;
pub mod os_rot;
pub mod pem;

pub use crate::array::{Array, ArrayError};
pub use crate::der_chain::{load_der_chain, Certificate, PkiPath};
pub use crate::error::{Error, OsRotErrorCode};
pub use crate::helios::{Attestation, HeliosOsRotError, P384Signature};
pub use crate::mock::{HeliosRotMock, HeliosRotMockError};
pub use crate::nonce::{Nonce, Nonce48, NonceError};
