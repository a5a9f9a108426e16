//! Requests to the `os_rot` driver and what becomes of its replies.
//!
//! The driver is reached by ioctls. Nothing here performs one: a request is a value to hand
//! to the driver, and a reply is that value as the driver left it, or the error number that
//! the call ended with.

use vstd::prelude::*;

use crate::error::{Error, OsRotErrorCode};
use crate::ffi::{OsRotAttest, OsRotCerts, RawOsRotError, OS_ROT_HASH_SIZE, OS_ROT_SIG_SIZE};
use crate::flexible::{alloc_flexible_struct, FlexibleArrayMember};

verus! {

/// A result in which the bytes are taken by their view.
pub open spec fn bytes_of<E>(res: Result<Vec<u8>, E>) -> Result<Seq<u8>, E> {
    match res {
        Ok(bytes) => Ok(bytes@),
        Err(e) => Err(e),
    }
}

impl OsRotCerts {
    /// A buffer ready for the driver: no error, and room for `capacity` bytes, all zero.
    pub open spec fn is_request(self, capacity: u32) -> bool {
        &&& self.error.0 == 0
        &&& self.chain_size == capacity
        &&& self.chain@ == Seq::new(capacity as nat, |i: int| 0u8)
    }

    /// The driver claims success and more chain bytes than the buffer has room for.
    pub open spec fn over_reports(self) -> bool {
        self.error.outcome() is Ok && self.chain_size > self.chain@.len()
    }

    /// Tells whether the driver claims success and more chain bytes than the buffer has room
    /// for.
    pub fn claims_too_much(&self) -> (res: bool)
        ensures
            res == self.over_reports(),
    {
        self.error.check_err().is_ok() && self.chain_size as usize > self.chain.len()
    }

    /// What the driver wrote: its failure, or as many bytes as it reported.
    pub open spec fn chain_outcome(self) -> Result<Seq<u8>, Error> {
        match self.error.outcome() {
            Ok(_) => Ok(self.chain@.take(self.chain_size as int)),
            Err(code) => Err(Error::RotError(code)),
        }
    }

    /// Copy out the certificate chain bytes the driver wrote into this buffer.
    pub fn chain_bytes(&self) -> (res: Result<Vec<u8>, Error>)
        requires
            !self.over_reports(),
        ensures
            bytes_of(res) == self.chain_outcome(),
    {
        match self.error.check_err() {
            Ok(_) => {},
            Err(code) => {
                return Err(Error::from(code));
            },
        }
        let num_items = self.chain_size as usize;
        let chain = vstd::slice::slice_subrange(self.chain.as_slice(), 0, num_items);
        Ok(vstd::slice::slice_to_vec(chain))
    }
}

/// Where the retrieval of the certificate chain stands: which request is under way.
#[derive(Clone, Copy, Debug, PartialEq, Eq, Structural)]
pub enum GetCerts {
    /// The driver is asked, with a zero-length buffer, for the chain size.
    Probe,
    /// The driver is asked for the chain, with a buffer of the size that it reported.
    Fetch,
}

/// What to do next to retrieve the certificate chain.
#[derive(Debug)]
pub enum CertsStep {
    /// Hand `request` to the driver in an `OS_ROT_IOC_GET_CERTS` ioctl, and the reply to
    /// [`GetCerts::step`] of `state`.
    Ioctl { state: GetCerts, request: Box<OsRotCerts> },
    /// The retrieval is over.
    Done(Result<Vec<u8>, Error>),
}

/// The reply to an `OS_ROT_IOC_GET_CERTS` ioctl.
pub type CertsReply = Result<Box<OsRotCerts>, rustix::io::Errno>;

/// What the reply to the probe settles: the size to fetch with, or the end.
pub open spec fn probe_outcome(reply: CertsReply) -> Result<u32, Error> {
    match reply {
        Err(errno) => Err(Error::GetCertsIoctl { errno }),
        Ok(probe) => match probe.error.outcome() {
            Err(code) => Err(Error::RotError(code)),
            Ok(_) => match crate::flexible::refusal::<OsRotCerts>(probe.chain_size) {
                Some(e) => Err(e),
                None => Ok(probe.chain_size),
            },
        },
    }
}

/// What the reply to the second request settles. The driver's complaint that the buffer is
/// too small means that the chain has grown since the probe.
pub open spec fn fetch_outcome(reply: CertsReply) -> Result<Seq<u8>, Error> {
    match reply {
        Err(errno) => Err(Error::GetCertsIoctl { errno }),
        Ok(certs) => match certs.chain_outcome() {
            Err(Error::RotError(OsRotErrorCode::Size)) => Err(Error::CertChainSize),
            outcome => outcome,
        },
    }
}

/// The outcome of the whole retrieval, where the driver answers the probe and, if it comes
/// to that, the second request as given.
pub open spec fn get_certs_outcome(probe: CertsReply, fetch: CertsReply) -> Result<Seq<u8>, Error> {
    match probe_outcome(probe) {
        Err(e) => Err(e),
        Ok(_) => fetch_outcome(fetch),
    }
}

impl GetCerts {
    /// Whether `reply` is one that the driver may give to the request under way: it does not
    /// claim to have written more of the chain than the buffer has room for.
    pub open spec fn admits(self, reply: CertsReply) -> bool {
        self is Fetch ==> (reply matches Ok(certs) ==> !certs.over_reports())
    }

    /// Tells whether `reply` is one that the driver may give to the request under way.
    pub fn accepts(&self, reply: &CertsReply) -> (res: bool)
        ensures
            res == self.admits(*reply),
    {
        match (self, reply) {
            (GetCerts::Fetch, Ok(certs)) => !certs.claims_too_much(),
            _ => true,
        }
    }

    /// Begins the retrieval: the driver is to be probed with a zero-length buffer.
    pub fn start() -> (res: CertsStep)
        ensures
            res matches CertsStep::Ioctl { state, request } && state == GetCerts::Probe
                && request.is_request(0),
    {
        GetCerts::request(GetCerts::Probe, 0)
    }

    /// Goes on from the reply to the request under way.
    pub fn step(self, reply: CertsReply) -> (res: CertsStep)
        requires
            self.admits(reply),
        ensures
            match self {
                GetCerts::Probe => match probe_outcome(reply) {
                    Ok(size) => res matches CertsStep::Ioctl { state, request } && state
                        == GetCerts::Fetch && request.is_request(size),
                    Err(e) => res == CertsStep::Done(Err(e)),
                },
                GetCerts::Fetch => res matches CertsStep::Done(done) && bytes_of(done)
                    == fetch_outcome(reply),
            },
    {
        let certs = match reply {
            Ok(certs) => certs,
            Err(errno) => {
                return CertsStep::Done(Err(Error::GetCertsIoctl { errno }));
            },
        };
        match self {
            GetCerts::Probe => match certs.error.check_err() {
                Ok(_) => GetCerts::request(GetCerts::Fetch, certs.chain_size),
                Err(code) => CertsStep::Done(Err(Error::from(code))),
            },
            GetCerts::Fetch => match certs.chain_bytes() {
                Err(Error::RotError(OsRotErrorCode::Size)) => {
                    CertsStep::Done(Err(Error::CertChainSize))
                },
                res => CertsStep::Done(res),
            },
        }
    }

    /// The whole retrieval, against a driver that answers the probe and, if it comes to that,
    /// the second request with the given replies.
    pub fn run(probe: CertsReply, fetch: CertsReply) -> (res: Result<Vec<u8>, Error>)
        requires
            GetCerts::Fetch.admits(fetch),
        ensures
            bytes_of(res) == get_certs_outcome(probe, fetch),
    {
        match GetCerts::Probe.step(probe) {
            CertsStep::Ioctl { state, .. } => match state.step(fetch) {
                CertsStep::Done(res) => res,
                CertsStep::Ioctl { .. } => vstd::pervasive::unreached(),
            },
            CertsStep::Done(res) => res,
        }
    }

    /// The step that asks the driver with a buffer of `capacity` bytes.
    fn request(state: GetCerts, capacity: u32) -> (res: CertsStep)
        ensures
            match crate::flexible::refusal::<OsRotCerts>(capacity) {
                None => res matches CertsStep::Ioctl { state: s, request } && s == state
                    && request.is_request(capacity),
                Some(e) => res == CertsStep::Done(Err(e)),
            },
            capacity == 0 ==> res is Ioctl,
    {
        proof {
            crate::flexible::law_certs_layout(capacity);
        }
        match alloc_flexible_struct::<OsRotCerts>(capacity) {
            Ok(request) => {
                assert(request.chain == request.items());
                CertsStep::Ioctl { state, request }
            },
            Err(e) => CertsStep::Done(Err(e)),
        }
    }
}

/// A driver that reports the size of its chain to the probe, and then fills the buffer with
/// the chain, gets it through whole.
pub proof fn law_get_certs_returns_driver_chain(
    chain: Seq<u8>,
    probe: OsRotCerts,
    fetch: OsRotCerts,
)
    requires
        chain.len() <= crate::flexible::MAX_FLEXIBLE_BYTES,
        probe.error.outcome() is Ok,
        probe.chain_size == chain.len(),
        fetch.error.outcome() is Ok,
        fetch.chain_size == chain.len(),
        fetch.chain@ == chain,
    ensures
        GetCerts::Fetch.admits(Ok(Box::new(fetch))),
        get_certs_outcome(Ok(Box::new(probe)), Ok(Box::new(fetch))) == Ok::<Seq<u8>, Error>(chain),
{
    crate::flexible::law_certs_layout(probe.chain_size);
    assert(chain.take(chain.len() as int) == chain);
}

/// The retrieval asks for a retry in exactly one case: the driver answered the probe, and
/// then found the buffer of the size that it had reported too small.
pub proof fn law_retry_means_chain_grew(probe: CertsReply, fetch: CertsReply)
    ensures
        get_certs_outcome(probe, fetch) == Err::<Seq<u8>, Error>(Error::CertChainSize) <==> {
            &&& probe_outcome(probe) is Ok
            &&& fetch matches Ok(certs) && certs.error.0 == crate::ffi::OS_ROT_E_SIZE
        },
{
    if let Ok(p) = probe {
        crate::flexible::law_certs_layout(p.chain_size);
    }
}

impl OsRotAttest {
    /// The request for an attestation with the given nonce: no error, and a zeroed signature.
    pub fn request(nonce: &[u8; OS_ROT_HASH_SIZE]) -> (res: OsRotAttest)
        ensures
            res.error.0 == 0,
            res.nonce@ == nonce@,
            res.sig@ == Seq::new(OS_ROT_SIG_SIZE as nat, |i: int| 0u8),
    {
        OsRotAttest { error: RawOsRotError(0), nonce: *nonce, sig: [0u8; OS_ROT_SIG_SIZE] }
    }
}

/// The reply to an `OS_ROT_IOC_ATTEST` ioctl.
pub type AttestReply = Result<OsRotAttest, rustix::io::Errno>;

/// What the reply to an attestation request settles: the signature, or the failure.
pub open spec fn attest_outcome(reply: AttestReply) -> Result<Seq<u8>, Error> {
    match reply {
        Err(errno) => Err(Error::AttestIoctl { errno }),
        Ok(attest) => match attest.error.outcome() {
            Err(code) => Err(Error::RotError(code)),
            Ok(_) => Ok(attest.sig@),
        },
    }
}

/// The signature in the reply to an attestation request.
pub fn attest_signature(reply: AttestReply) -> (res: Result<Vec<u8>, Error>)
    ensures
        bytes_of(res) == attest_outcome(reply),
{
    match reply {
        Ok(attest) => match attest.error.check_err() {
            Ok(_) => Ok(vstd::slice::slice_to_vec(attest.sig.as_slice())),
            Err(code) => Err(Error::from(code)),
        },
        Err(errno) => Err(Error::AttestIoctl { errno }),
    }
}

/// A result holds the bytes that its vector holds, or its error.
pub proof fn law_bytes_of_result<E>(res: Result<Vec<u8>, E>)
    ensures
        res matches Ok(bytes) ==> bytes_of(res) == Ok::<Seq<u8>, E>(bytes@),
        res matches Err(e) ==> bytes_of(res) == Err::<Seq<u8>, E>(e),
{
}

/// A buffer that the driver filled without an error gives as many bytes as it reported, each
/// the one that stands in the buffer at that place. One with an error gives that error alone.
pub proof fn law_chain_bytes_are_the_reported_prefix(
    certs: OsRotCerts,
    res: Result<Vec<u8>, Error>,
)
    requires
        certs.error.0 == 0 ==> certs.chain_size <= certs.chain@.len(),
        call_ensures(OsRotCerts::chain_bytes, (&certs,), res),
    ensures
        !certs.over_reports(),
        certs.error.0 == 0 ==> {
            &&& res matches Ok(bytes)
            &&& bytes@.len() == certs.chain_size
            &&& forall|i: int| 0 <= i < certs.chain_size ==> #[trigger] bytes@[i] == certs.chain@[i]
        },
        certs.error.0 == 1 ==> res == Err::<Vec<u8>, _>(Error::RotError(OsRotErrorCode::Size)),
        certs.error.0 == 2 ==> res == Err::<Vec<u8>, _>(Error::RotError(OsRotErrorCode::Dpe)),
        certs.error.0 == 3 ==> res == Err::<Vec<u8>, _>(
            Error::RotError(OsRotErrorCode::NoProvider),
        ),
        certs.error.0 > 3 ==> res == Err::<Vec<u8>, _>(
            Error::RotError(OsRotErrorCode::Unknown(certs.error.0)),
        ),
{
}

/// A reply is not accepted in exactly one case: the driver answers the second request without
/// an error, and reports more bytes than the buffer has room for.
pub proof fn law_only_over_reports_are_not_accepted(state: GetCerts, reply: CertsReply, res: bool)
    requires
        call_ensures(GetCerts::accepts, (&state, &reply), res),
    ensures
        res == state.admits(reply),
        !res <==> {
            &&& state == GetCerts::Fetch
            &&& reply matches Ok(certs) && certs.error.0 == 0 && certs.chain_size
                > certs.chain@.len()
        },
        reply matches Ok(certs) ==> forall|b: bool|
            call_ensures(OsRotCerts::claims_too_much, (&*certs,), b) ==> (b <==> certs.error.0 == 0
                && certs.chain_size > certs.chain@.len()),
{
}

/// The driver is first asked with a buffer that has no room for the chain.
pub proof fn law_probe_is_empty(res: CertsStep)
    requires
        call_ensures(GetCerts::start, (), res),
    ensures
        res matches CertsStep::Ioctl { state, request } && state == GetCerts::Probe
            && request.error.0 == 0 && request.chain_size == 0 && request.chain@.len() == 0,
{
}

/// A size that the driver answers the probe with is the size of the next request: its count
/// field says so, and its buffer has room for just so many bytes, all of them zero.
pub proof fn law_probed_size_is_fetched(probe: OsRotCerts, res: CertsStep)
    requires
        probe.error.0 == 0,
        probe.chain_size <= 0x100_0000,
        call_ensures(GetCerts::step, (GetCerts::Probe, Ok(Box::new(probe))), res),
    ensures
        res matches CertsStep::Ioctl { state, request } && {
            &&& state == GetCerts::Fetch
            &&& request.error.0 == 0
            &&& request.chain_size == probe.chain_size
            &&& request.chain@.len() == probe.chain_size
            &&& forall|i: int| 0 <= i < probe.chain_size ==> #[trigger] request.chain@[i] == 0
        },
{
    crate::flexible::law_certs_layout(probe.chain_size);
}

/// The failure of a probe ends the retrieval: the driver's error, a size that is implausible,
/// or the error number of the call.
pub proof fn law_failed_probe_ends_retrieval(reply: CertsReply, res: CertsStep)
    requires
        call_ensures(GetCerts::step, (GetCerts::Probe, reply), res),
    ensures
        reply matches Err(errno) ==> res == CertsStep::Done(Err(Error::GetCertsIoctl { errno })),
        reply matches Ok(probe) && probe.error.0 == 1 ==> res == CertsStep::Done(
            Err(Error::RotError(OsRotErrorCode::Size)),
        ),
        reply matches Ok(probe) && probe.error.0 == 2 ==> res == CertsStep::Done(
            Err(Error::RotError(OsRotErrorCode::Dpe)),
        ),
        reply matches Ok(probe) && probe.error.0 == 3 ==> res == CertsStep::Done(
            Err(Error::RotError(OsRotErrorCode::NoProvider)),
        ),
        reply matches Ok(probe) ==> (probe.error.0 > 3 ==> res == CertsStep::Done(
            Err(Error::RotError(OsRotErrorCode::Unknown(probe.error.0))),
        )),
        reply matches Ok(probe) ==> (probe.error.0 == 0 && 0x100_0000 < probe.chain_size
            <= isize::MAX ==> res == CertsStep::Done(
            Err(Error::TooLarge { requested: probe.chain_size as usize }),
        )),
        reply matches Ok(probe) ==> (probe.error.0 == 0 && probe.chain_size > isize::MAX ==> res
            == CertsStep::Done(Err(Error::LayoutOverflow))),
{
    if let Ok(probe) = reply {
        crate::flexible::law_certs_layout(probe.chain_size);
    }
}

/// The reply to the second request ends the retrieval: with the bytes that the driver reported,
/// each at its place, with the request to retry where the driver found the buffer too small,
/// or with the driver's other errors and the error number of the call as they are.
pub proof fn law_fetch_ends_retrieval(reply: CertsReply, res: CertsStep)
    requires
        reply matches Ok(certs) ==> (certs.error.0 == 0 ==> certs.chain_size
            <= certs.chain@.len()),
        call_ensures(GetCerts::step, (GetCerts::Fetch, reply), res),
    ensures
        reply matches Err(errno) ==> res == CertsStep::Done(Err(Error::GetCertsIoctl { errno })),
        reply matches Ok(certs) ==> (certs.error.0 == 0 ==> {
            &&& res matches CertsStep::Done(Ok(bytes))
            &&& bytes@.len() == certs.chain_size
            &&& forall|i: int| 0 <= i < certs.chain_size ==> #[trigger] bytes@[i] == certs.chain@[i]
        }),
        reply matches Ok(certs) ==> (certs.error.0 == 1 ==> res == CertsStep::Done(
            Err(Error::CertChainSize),
        )),
        reply matches Ok(certs) ==> (certs.error.0 == 2 ==> res == CertsStep::Done(
            Err(Error::RotError(OsRotErrorCode::Dpe)),
        )),
        reply matches Ok(certs) ==> (certs.error.0 == 3 ==> res == CertsStep::Done(
            Err(Error::RotError(OsRotErrorCode::NoProvider)),
        )),
        reply matches Ok(certs) ==> (certs.error.0 > 3 ==> res == CertsStep::Done(
            Err(Error::RotError(OsRotErrorCode::Unknown(certs.error.0))),
        )),
{
}

/// The whole retrieval is the probe, and where it sizes a second request, the reply to that.
pub proof fn law_retrieval_is_probe_then_fetch(
    probe: CertsReply,
    fetch: CertsReply,
    first: CertsStep,
    second: CertsStep,
    res: Result<Vec<u8>, Error>,
)
    requires
        GetCerts::Fetch.admits(fetch),
        call_ensures(GetCerts::step, (GetCerts::Probe, probe), first),
        call_ensures(GetCerts::step, (GetCerts::Fetch, fetch), second),
        call_ensures(GetCerts::run, (probe, fetch), res),
    ensures
        first matches CertsStep::Done(end) ==> bytes_of(res) == bytes_of(end),
        first is Ioctl ==> (second matches CertsStep::Done(end) && bytes_of(res) == bytes_of(end)),
{
}

/// The request for an attestation hands the driver the nonce, byte for byte.
pub proof fn law_attest_request_carries_nonce(nonce: [u8; OS_ROT_HASH_SIZE], res: OsRotAttest)
    requires
        call_ensures(OsRotAttest::request, (&nonce,), res),
    ensures
        res.error.0 == 0,
        forall|i: int| 0 <= i < 48 ==> #[trigger] res.nonce@[i] == nonce@[i],
        forall|i: int| 0 <= i < 96 ==> #[trigger] res.sig@[i] == 0,
{
}

/// A reply without an error gives the signature as the driver wrote it, byte for byte. One
/// with an error gives that error, and a failed call its error number.
pub proof fn law_attest_signature_is_the_drivers(reply: AttestReply, res: Result<Vec<u8>, Error>)
    requires
        call_ensures(attest_signature, (reply,), res),
    ensures
        reply matches Err(errno) ==> res == Err::<Vec<u8>, _>(Error::AttestIoctl { errno }),
        reply matches Ok(attest) ==> (attest.error.0 == 0 ==> {
            &&& res matches Ok(bytes)
            &&& bytes@.len() == 96
            &&& forall|i: int| 0 <= i < 96 ==> #[trigger] bytes@[i] == attest.sig@[i]
        }),
        reply matches Ok(attest) ==> (attest.error.0 == 1 ==> res == Err::<Vec<u8>, _>(
            Error::RotError(OsRotErrorCode::Size),
        )),
        reply matches Ok(attest) ==> (attest.error.0 == 2 ==> res == Err::<Vec<u8>, _>(
            Error::RotError(OsRotErrorCode::Dpe),
        )),
        reply matches Ok(attest) ==> (attest.error.0 == 3 ==> res == Err::<Vec<u8>, _>(
            Error::RotError(OsRotErrorCode::NoProvider),
        )),
        reply matches Ok(attest) ==> (attest.error.0 > 3 ==> res == Err::<Vec<u8>, _>(
            Error::RotError(OsRotErrorCode::Unknown(attest.error.0)),
        )),
{
}

} // verus!
