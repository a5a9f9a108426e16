//! What becomes of the replies of the RoT in the Helios kernel.

use vstd::prelude::*;
use x509_cert::der::Error as DerError;

use crate::array::{Array, ArrayError};
use crate::der_chain::{load_der_chain, PkiPath};
use crate::error::Error;

verus! {

/// The length of an ECDSA signature over the curve P-384: two scalars of 48 bytes.
pub const SIGNATURE_SIZE: usize = 96;

/// The bytes of an ECDSA signature over the curve P-384.
pub type P384Signature = Array<SIGNATURE_SIZE>;

impl Array<SIGNATURE_SIZE> {
    /// The length of the array.
    pub const LENGTH: usize = SIGNATURE_SIZE;
}

/// An attestation from the Helios Rot
#[derive(Debug)]
pub enum Attestation {
    P384(P384Signature),
}

impl View for Attestation {
    type V = Seq<u8>;

    open spec fn view(&self) -> Seq<u8> {
        match self {
            Attestation::P384(signature) => signature@,
        }
    }
}

/// What bytes make as a signature: themselves, if they are as many as a signature has.
pub open spec fn signature_outcome(bytes: Seq<u8>) -> Result<Seq<u8>, ArrayError> {
    if bytes.len() == SIGNATURE_SIZE {
        Ok(bytes)
    } else {
        Err(
            ArrayError::TryFromSliceError {
                expected: SIGNATURE_SIZE,
                actual: bytes.len() as usize,
            },
        )
    }
}

/// A result in which the attestation is taken by its view.
pub open spec fn signature_of<E>(res: Result<Attestation, E>) -> Result<Seq<u8>, E> {
    match res {
        Ok(attestation) => Ok(attestation@),
        Err(e) => Err(e),
    }
}

impl Attestation {
    /// The attestation whose signature is the given bytes.
    pub fn from_signature(bytes: &[u8]) -> (res: Result<Attestation, ArrayError>)
        ensures
            signature_of(res) == signature_outcome(bytes@),
    {
        match P384Signature::try_from(bytes) {
            Ok(signature) => Ok(Attestation::P384(signature)),
            Err(e) => Err(e),
        }
    }
}

/// Why the OS RoT gave no certificates or no attestation.
#[derive(Debug)]
pub enum HeliosOsRotError {
    /// The request to the OS RoT failed.
    OsRotError(Error),
    /// The certificate chain from the OS RoT is not DER.
    DerError(DerError),
    /// The attestation signature from the OS RoT is invalid.
    SignatureSize(ArrayError),
}

impl From<Error> for HeliosOsRotError {
    fn from(error: Error) -> (res: Self) {
        HeliosOsRotError::OsRotError(error)
    }
}

impl vstd::std_specs::convert::FromSpecImpl<Error> for HeliosOsRotError {
    open spec fn obeys_from_spec() -> bool {
        true
    }

    open spec fn from_spec(error: Error) -> Self {
        HeliosOsRotError::OsRotError(error)
    }
}

impl From<DerError> for HeliosOsRotError {
    fn from(error: DerError) -> (res: Self) {
        HeliosOsRotError::DerError(error)
    }
}

impl vstd::std_specs::convert::FromSpecImpl<DerError> for HeliosOsRotError {
    open spec fn obeys_from_spec() -> bool {
        true
    }

    open spec fn from_spec(error: DerError) -> Self {
        HeliosOsRotError::DerError(error)
    }
}

impl From<ArrayError> for HeliosOsRotError {
    fn from(error: ArrayError) -> (res: Self) {
        HeliosOsRotError::SignatureSize(error)
    }
}

impl vstd::std_specs::convert::FromSpecImpl<ArrayError> for HeliosOsRotError {
    open spec fn obeys_from_spec() -> bool {
        true
    }

    open spec fn from_spec(error: ArrayError) -> Self {
        HeliosOsRotError::SignatureSize(error)
    }
}

/// The certificates in the OS RoT's reply to a request for its chain.
pub fn certificates_from_reply(reply: Result<Vec<u8>, Error>) -> (res: Result<
    PkiPath,
    HeliosOsRotError,
>)
    ensures
        crate::der_chain::encodings_of(res) == match reply {
            Err(e) => Err(HeliosOsRotError::OsRotError(e)),
            Ok(raw) => match crate::der_chain::chain_from(raw@, 0) {
                Err(e) => Err(HeliosOsRotError::DerError(e)),
                Ok(ders) => Ok(ders),
            },
        },
        reply matches Ok(raw) ==> (res is Ok <==> raw@.len() <= crate::der_chain::MAX_DER_INPUT
            && exists|ders: Seq<Seq<u8>>| crate::der_chain::is_chain(raw@, ders)),
        reply matches Ok(raw) ==> (res matches Ok(certs) ==> crate::der_chain::is_chain(
            raw@,
            crate::der_chain::encodings(certs@),
        )),
        reply is Ok && reply->Ok_0@.len() <= crate::der_chain::MAX_DER_INPUT ==> forall|
            ders: Seq<Seq<u8>>,
        |
            #![trigger crate::der_chain::is_chain(reply->Ok_0@, ders)]
            crate::der_chain::is_chain(reply->Ok_0@, ders) ==> crate::der_chain::encodings_of(res)
                == Ok::<Seq<Seq<u8>>, HeliosOsRotError>(ders),
        reply is Ok ==> (res matches Err(e) ==> (e matches HeliosOsRotError::DerError(d) && exists|
            k: nat,
            read: Seq<Seq<u8>>,
        |
            #![trigger crate::der_chain::read_before(reply->Ok_0@, k, read)]
            crate::der_chain::read_before(reply->Ok_0@, k, read)
                && crate::der_chain::certificate_end(reply->Ok_0@, k) == Err::<nat, DerError>(d))),
{
    let raw = match reply {
        Ok(raw) => raw,
        Err(e) => {
            return Err(HeliosOsRotError::from(e));
        },
    };
    let bytes = raw.as_slice();
    match load_der_chain(bytes) {
        Ok(certs) => Ok(certs),
        Err(e) => {
            proof {
                crate::der_chain::law_chain_is_read_whole(bytes, Err(e));
            }
            Err(HeliosOsRotError::from(e))
        },
    }
}

/// What the OS RoT's reply to a request for an attestation settles: the signature, or the
/// failure.
pub open spec fn attestation_outcome(reply: Result<Seq<u8>, Error>) -> Result<
    Seq<u8>,
    HeliosOsRotError,
> {
    match reply {
        Err(e) => Err(HeliosOsRotError::OsRotError(e)),
        Ok(raw) => match signature_outcome(raw) {
            Err(e) => Err(HeliosOsRotError::SignatureSize(e)),
            Ok(signature) => Ok(signature),
        },
    }
}

/// The attestation in the OS RoT's reply to a request for one.
pub fn attestation_from_reply(reply: Result<Vec<u8>, Error>) -> (res: Result<
    Attestation,
    HeliosOsRotError,
>)
    ensures
        signature_of(res) == attestation_outcome(crate::os_rot::bytes_of(reply)),
{
    let raw = match reply {
        Ok(raw) => raw,
        Err(e) => {
            return Err(HeliosOsRotError::from(e));
        },
    };
    match Attestation::from_signature(raw.as_slice()) {
        Ok(attestation) => Ok(attestation),
        Err(e) => Err(HeliosOsRotError::from(e)),
    }
}

/// A signature from the driver is always of the right size: where the driver gives one, it is
/// the attestation, and a failure is the driver's.
pub proof fn law_driver_signature_is_attestation(reply: crate::os_rot::AttestReply)
    ensures
        attestation_outcome(crate::os_rot::attest_outcome(reply))
            == match crate::os_rot::attest_outcome(reply) {
            Ok(signature) => Ok(signature),
            Err(e) => Err(HeliosOsRotError::OsRotError(e)),
        },
        attestation_outcome(crate::os_rot::attest_outcome(reply)) is Ok
            <==> crate::os_rot::attest_outcome(reply) is Ok,
        attestation_outcome(crate::os_rot::attest_outcome(reply)) matches Err(e) ==> e
            is OsRotError,
{
}

/// Bytes are an attestation exactly if there are 96 of them, and each is then at its place in
/// the signature. The refusal tells how many there were.
pub proof fn law_attestation_is_the_signature(bytes: &[u8], res: Result<Attestation, ArrayError>)
    requires
        call_ensures(Attestation::from_signature, (bytes,), res),
    ensures
        bytes@.len() == 96 ==> (res matches Ok(Attestation::P384(signature)) && forall|i: int|
            0 <= i < 96 ==> #[trigger] signature.0@[i] == bytes@[i]),
        bytes@.len() != 96 ==> (res matches Err(
            ArrayError::TryFromSliceError { expected, actual },
        ) && expected == 96 && actual == bytes@.len()),
{
    assert(bytes.len() == bytes@.len());
}

/// The bytes of an attestation are those of its signature.
pub proof fn law_attestation_bytes(attestation: Attestation)
    ensures
        attestation@.len() == 96,
        attestation matches Attestation::P384(signature) && attestation@ == signature.0@,
{
}

/// The RoT's reply is the attestation, byte for byte, if it has the length of a signature. One
/// of another length is refused, and the failure of the request is handed on.
pub proof fn law_reply_is_the_attestation(
    reply: Result<Vec<u8>, Error>,
    res: Result<Attestation, HeliosOsRotError>,
)
    requires
        call_ensures(attestation_from_reply, (reply,), res),
    ensures
        reply matches Err(e) ==> res == Err::<Attestation, _>(HeliosOsRotError::OsRotError(e)),
        reply matches Ok(raw) ==> (raw@.len() == 96 ==> (res matches Ok(
            Attestation::P384(signature),
        ) && forall|i: int| 0 <= i < 96 ==> #[trigger] signature.0@[i] == raw@[i])),
        reply matches Ok(raw) ==> (raw@.len() != 96 ==> (res matches Err(
            HeliosOsRotError::SignatureSize(ArrayError::TryFromSliceError { expected, actual }),
        ) && expected == 96 && actual == raw@.len())),
{
    if let Ok(raw) = reply {
        assert(raw.len() == raw@.len());
    }
}

/// A signature that the driver wrote without an error is the attestation, byte for byte.
pub proof fn law_driver_attestation(
    attest: crate::ffi::OsRotAttest,
    raw: Result<Vec<u8>, Error>,
    res: Result<Attestation, HeliosOsRotError>,
)
    requires
        attest.error.0 == 0,
        call_ensures(crate::os_rot::attest_signature, (Ok(attest),), raw),
        call_ensures(attestation_from_reply, (raw,), res),
    ensures
        res matches Ok(attestation) && attestation@ == attest.sig@,
        res matches Ok(Attestation::P384(signature)) && forall|i: int|
            0 <= i < 96 ==> #[trigger] signature.0@[i] == attest.sig@[i],
{
    crate::os_rot::law_attest_signature_is_the_drivers(Ok(attest), raw);
    law_reply_is_the_attestation(raw, res);
    if let Ok(attestation) = res {
        assert(attestation@ =~= attest.sig@);
    }
}

/// The certificates from the RoT, one encoding behind the other, are the bytes of its reply,
/// and each is one certificate. A failure to read them, and that of the request, are handed on.
pub proof fn law_reply_is_the_chain(
    reply: Result<Vec<u8>, Error>,
    res: Result<PkiPath, HeliosOsRotError>,
)
    requires
        call_ensures(certificates_from_reply, (reply,), res),
    ensures
        reply matches Err(e) ==> res == Err::<PkiPath, _>(HeliosOsRotError::OsRotError(e)),
        reply matches Ok(raw) ==> match res {
            Ok(certs) => {
                &&& Seq::new(certs@.len(), |i: int| certs@[i].der@).flatten() == raw@
                &&& forall|i: int|
                    0 <= i < certs@.len() ==> crate::der_chain::certificate_end(
                        (#[trigger] certs@[i]).der@,
                        0,
                    ) == Ok::<nat, DerError>(certs@[i].der@.len())
            },
            Err(e) => e is DerError,
        },
{
    if let (Ok(raw), Ok(certs)) = (reply, res) {
        crate::der_chain::lemma_encodings(certs@, raw@);
    }
}

/// What failed is carried in the error unchanged.
pub proof fn law_rot_failure_is_kept(rot: Error, der: DerError, size: ArrayError)
    ensures
        <HeliosOsRotError as vstd::std_specs::convert::FromSpec<Error>>::from_spec(rot)
            == HeliosOsRotError::OsRotError(rot),
        <HeliosOsRotError as vstd::std_specs::convert::FromSpec<DerError>>::from_spec(der)
            == HeliosOsRotError::DerError(der),
        <HeliosOsRotError as vstd::std_specs::convert::FromSpec<ArrayError>>::from_spec(size)
            == HeliosOsRotError::SignatureSize(size),
{
}

/// A reply of certificates, one encoding behind the other and in whatever number, gives just
/// those certificates.
pub proof fn law_concatenated_reply_is_read_back(
    ders: Seq<Seq<u8>>,
    raw: Vec<u8>,
    res: Result<PkiPath, HeliosOsRotError>,
)
    requires
        raw@ == ders.flatten(),
        raw@.len() <= 0xfff_ffff,
        forall|i: int|
            0 <= i < ders.len() ==> (#[trigger] ders[i]).len() > 0
                && crate::der_chain::certificate_end(ders[i], 0) == Ok::<nat, DerError>(
                ders[i].len(),
            ),
        call_ensures(certificates_from_reply, (Ok(raw),), res),
    ensures
        res matches Ok(certs) && certs@.len() == ders.len() && forall|i: int|
            0 <= i < ders.len() ==> (#[trigger] certs@[i]).der@ == ders[i],
{
    crate::der_chain::lemma_concatenation_is_chain(ders, raw@);
    assert(crate::der_chain::encodings_of(res) == Ok::<Seq<Seq<u8>>, HeliosOsRotError>(ders)) by {
        let reply: Result<Vec<u8>, Error> = Ok(raw);
        assert(crate::der_chain::is_chain(reply->Ok_0@, ders));
    }
    if let Ok(certs) = res {
        assert forall|i: int| 0 <= i < ders.len() implies (#[trigger] certs@[i]).der@
            == ders[i] by {
            assert(crate::der_chain::encodings(certs@)[i] == ders[i]);
        }
    }
}

} // verus!
