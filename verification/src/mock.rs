//! A stand-in for the RoT, which attests with a key that is read from a file.

use p384::ecdsa::signature::{Signer, Verifier};
use p384::ecdsa::{Error as EcdsaError, Signature, SigningKey};
use p384::pkcs8::{DecodePrivateKey, Error as Pkcs8Error};
use std::path::PathBuf;
use vstd::prelude::*;
use x509_cert::der::Error as DerError;

use crate::array::ArrayError;
use crate::der_chain::PkiPath;
use crate::helios::Attestation;
use crate::nonce::Nonce;
use crate::pem::load_pem_chain;

verus! {

/// The path of a file, carried unread.
#[verifier::external_type_specification]
#[verifier::external_body]
pub struct ExPathBuf(std::path::PathBuf);

/// Why a document is not a private key, carried unread.
#[verifier::external_type_specification]
#[verifier::external_body]
pub struct ExPkcs8Error(Pkcs8Error);

/// Why a message was not signed, carried unread.
#[verifier::external_type_specification]
#[verifier::external_body]
pub struct ExEcdsaError(EcdsaError);

/// The secret scalar of the P-384 key in a PKCS#8 PEM document, or why it has none.
pub uninterp spec fn pkcs8_scalar(pem: Seq<char>) -> Result<Seq<u8>, Pkcs8Error>;

/// The secret scalar of the key in a PKCS#8 PEM document, as
/// `p384::ecdsa::SigningKey::from_pkcs8_pem` finds it. It depends on the document alone.
#[verifier::external_body]
fn load_pkcs8_pem(pem: &str) -> (res: Result<Vec<u8>, Pkcs8Error>)
    ensures
        crate::os_rot::bytes_of(res) == pkcs8_scalar(pem@),
{
    Ok(SigningKey::from_pkcs8_pem(pem)?.to_bytes().to_vec())
}

/// The ECDSA signature of a message with the P-384 key of the given scalar, or why there is
/// none.
pub uninterp spec fn p384_signature(scalar: Seq<u8>, message: Seq<u8>) -> Result<
    Seq<u8>,
    EcdsaError,
>;

/// What comes of checking an ECDSA signature of a message against the P-384 key of the given
/// scalar.
pub uninterp spec fn p384_verification(
    scalar: Seq<u8>,
    message: Seq<u8>,
    signature: Seq<u8>,
) -> Result<(), EcdsaError>;

/// Checks `signature` with `verify` of the `p384::ecdsa::VerifyingKey` that belongs to the
/// `SigningKey` of the given scalar. The outcome depends on the three arguments alone.
#[verifier::external_body]
fn verify(scalar: &[u8], message: &[u8], signature: &[u8]) -> (res: Result<(), EcdsaError>)
    ensures
        res == p384_verification(scalar@, message@, signature@),
{
    let key = SigningKey::from_slice(scalar)?;
    key.verifying_key().verify(message, &Signature::from_slice(signature)?)
}

/// Signs `message` with `try_sign` of the `p384::ecdsa::SigningKey` that `from_slice` makes of
/// the given scalar. The signature, two scalars of 48 bytes, depends on the key and the
/// message alone: the ephemeral scalar is derived from both. It is one that the key's own
/// verifying key accepts for the message.
#[verifier::external_body]
fn sign(scalar: &[u8], message: &[u8]) -> (res: Result<Vec<u8>, EcdsaError>)
    ensures
        crate::os_rot::bytes_of(res) == p384_signature(scalar@, message@),
        res matches Ok(signature) ==> signature@.len() == crate::helios::SIGNATURE_SIZE,
        res matches Ok(signature) ==> p384_verification(scalar@, message@, signature@) is Ok,
{
    let signature: Signature = SigningKey::from_slice(scalar)?.try_sign(message)?;
    Ok(signature.to_bytes().to_vec())
}

/// Why the stand-in cannot be loaded, or does not attest.
#[derive(Debug)]
pub enum HeliosRotMockError {
    /// The certificate chain is not PEM.
    DerError(DerError),
    /// A file cannot be read.
    FileRead { path: PathBuf, error: std::io::Error },
    /// A file does not hold a P-384 signing key.
    SigningKeyDecode { path: PathBuf, error: Pkcs8Error },
    /// The attestation signature is invalid.
    SignatureSize(ArrayError),
    /// The nonce was not signed.
    SigningError(EcdsaError),
}

impl From<DerError> for HeliosRotMockError {
    fn from(error: DerError) -> (res: Self) {
        HeliosRotMockError::DerError(error)
    }
}

impl vstd::std_specs::convert::FromSpecImpl<DerError> for HeliosRotMockError {
    open spec fn obeys_from_spec() -> bool {
        true
    }

    open spec fn from_spec(error: DerError) -> Self {
        HeliosRotMockError::DerError(error)
    }
}

impl From<ArrayError> for HeliosRotMockError {
    fn from(error: ArrayError) -> (res: Self) {
        HeliosRotMockError::SignatureSize(error)
    }
}

impl vstd::std_specs::convert::FromSpecImpl<ArrayError> for HeliosRotMockError {
    open spec fn obeys_from_spec() -> bool {
        true
    }

    open spec fn from_spec(error: ArrayError) -> Self {
        HeliosRotMockError::SignatureSize(error)
    }
}

impl From<EcdsaError> for HeliosRotMockError {
    fn from(error: EcdsaError) -> (res: Self) {
        HeliosRotMockError::SigningError(error)
    }
}

impl vstd::std_specs::convert::FromSpecImpl<EcdsaError> for HeliosRotMockError {
    open spec fn obeys_from_spec() -> bool {
        true
    }

    open spec fn from_spec(error: EcdsaError) -> Self {
        HeliosRotMockError::SigningError(error)
    }
}

/// What came of reading a file as text.
pub type FileText = Result<String, std::io::Error>;

/// Whether the file of certificates may hold the text: it is a document that the reader of PEM
/// certificates gives an answer to.
pub open spec fn certs_admitted(text: FileText) -> bool {
    text matches Ok(pem) ==> crate::pem::is_answered(vstd::utf8::encode_utf8(pem@))
}

/// Tells whether the file of certificates may hold the text.
fn certs_accepted(text: &FileText) -> (res: bool)
    ensures
        res == certs_admitted(*text),
{
    match text {
        Ok(pem) => crate::pem::answered(pem.as_str().as_bytes()),
        Err(_) => true,
    }
}

/// The certificates in the file at `path`, or why it gives none.
pub open spec fn certs_outcome(path: PathBuf, text: FileText) -> Result<
    Seq<Seq<u8>>,
    HeliosRotMockError,
> {
    match text {
        Err(error) => Err(HeliosRotMockError::FileRead { path, error }),
        Ok(pem) => match crate::pem::pem_chain(vstd::utf8::encode_utf8(pem@)) {
            Err(e) => Err(HeliosRotMockError::DerError(e)),
            Ok(ders) => Ok(ders),
        },
    }
}

/// The scalar of the key in the file at `path`, or why it gives none.
pub open spec fn alias_outcome(path: PathBuf, text: FileText) -> Result<
    Seq<u8>,
    HeliosRotMockError,
> {
    match text {
        Err(error) => Err(HeliosRotMockError::FileRead { path, error }),
        Ok(pem) => match pkcs8_scalar(pem@) {
            Err(error) => Err(HeliosRotMockError::SigningKeyDecode { path, error }),
            Ok(scalar) => Ok(scalar),
        },
    }
}

/// The chain and the key of the stand-in that is loaded from two files, or the first failure.
pub open spec fn load_outcome(
    certs: PathBuf,
    certs_text: FileText,
    alias: PathBuf,
    alias_text: FileText,
) -> Result<(Seq<Seq<u8>>, Seq<u8>), HeliosRotMockError> {
    match certs_outcome(certs, certs_text) {
        Err(e) => Err(e),
        Ok(ders) => match alias_outcome(alias, alias_text) {
            Err(e) => Err(e),
            Ok(scalar) => Ok((ders, scalar)),
        },
    }
}

/// A stand-in for the RoT: a certificate chain, and the key that it attests with.
pub struct HeliosRotMock {
    certs: PkiPath,
    /// The secret scalar of the P-384 key.
    alias_key: Vec<u8>,
}

/// Where the loading of the stand-in stands: which file is to be read.
#[derive(Debug)]
pub enum MockLoad {
    /// The certificate chain.
    Certs { certs: PathBuf, alias: PathBuf },
    /// The key, after the certificate chain.
    AliasKey { chain: PkiPath, alias: PathBuf },
}

/// What to do next to load the stand-in.
pub enum LoadStep {
    /// Read the file at [`MockLoad::path`], and hand its text to [`MockLoad::step`].
    Read(MockLoad),
    /// The loading is over.
    Done(Result<HeliosRotMock, HeliosRotMockError>),
}

impl MockLoad {
    /// Begins to load the stand-in from a file with its certificate chain and one with its
    /// key. The chain is to be read first.
    pub fn start(certs: PathBuf, alias: PathBuf) -> (res: MockLoad)
        ensures
            res == (MockLoad::Certs { certs, alias }),
    {
        MockLoad::Certs { certs, alias }
    }

    /// The path of the file that is to be read.
    pub open spec fn next_path(self) -> PathBuf {
        match self {
            MockLoad::Certs { certs, .. } => certs,
            MockLoad::AliasKey { alias, .. } => alias,
        }
    }

    /// The path of the file that is to be read.
    pub fn path(&self) -> (res: &PathBuf)
        ensures
            *res == self.next_path(),
    {
        match self {
            MockLoad::Certs { certs, .. } => certs,
            MockLoad::AliasKey { alias, .. } => alias,
        }
    }

    /// Whether the text is one that the file to be read may hold: the certificates are in a
    /// document that their reader gives an answer to.
    pub open spec fn admits(self, text: FileText) -> bool {
        self is Certs ==> certs_admitted(text)
    }

    /// Tells whether the text is one that the file to be read may hold.
    pub fn accepts(&self, text: &FileText) -> (res: bool)
        ensures
            res == self.admits(*text),
    {
        match self {
            MockLoad::Certs { .. } => certs_accepted(text),
            MockLoad::AliasKey { .. } => true,
        }
    }

    /// Goes on from the text of the file that was to be read.
    pub fn step(self, text: FileText) -> (res: LoadStep)
        requires
            self.admits(text),
        ensures
            match self {
                MockLoad::Certs { certs, alias } => match certs_outcome(certs, text) {
                    Ok(ders) => res matches LoadStep::Read(MockLoad::AliasKey { chain, alias: a })
                        && crate::der_chain::encodings(chain@) == ders && a == alias,
                    Err(e) => res == LoadStep::Done(Err(e)),
                },
                MockLoad::AliasKey { chain, alias } => match alias_outcome(alias, text) {
                    Ok(scalar) => res matches LoadStep::Done(Ok(mock)) && mock.chain()
                        == crate::der_chain::encodings(chain@) && mock.key() == scalar,
                    Err(e) => res == LoadStep::Done(Err(e)),
                },
            },
    {
        let pem = match text {
            Ok(pem) => pem,
            Err(error) => {
                let path = match self {
                    MockLoad::Certs { certs, .. } => certs,
                    MockLoad::AliasKey { alias, .. } => alias,
                };
                return LoadStep::Done(Err(HeliosRotMockError::FileRead { path, error }));
            },
        };
        match self {
            MockLoad::Certs { alias, .. } => MockLoad::after_certs(
                alias,
                load_pem_chain(pem.as_str().as_bytes()),
            ),
            MockLoad::AliasKey { chain, alias } => MockLoad::after_alias(
                chain,
                alias,
                load_pkcs8_pem(pem.as_str()),
            ),
        }
    }

    /// Goes on from what came of decoding the certificate chain.
    pub fn after_certs(alias: PathBuf, decoded: Result<PkiPath, DerError>) -> (res: LoadStep)
        ensures
            res == match decoded {
                Ok(chain) => LoadStep::Read(MockLoad::AliasKey { chain, alias }),
                Err(e) => LoadStep::Done(Err(HeliosRotMockError::DerError(e))),
            },
    {
        match decoded {
            Ok(chain) => LoadStep::Read(MockLoad::AliasKey { chain, alias }),
            Err(e) => LoadStep::Done(Err(HeliosRotMockError::from(e))),
        }
    }

    /// Goes on from what came of decoding the key in the file at `alias`.
    pub fn after_alias(
        chain: PkiPath,
        alias: PathBuf,
        decoded: Result<Vec<u8>, Pkcs8Error>,
    ) -> (res: LoadStep)
        ensures
            match decoded {
                Ok(scalar) => res matches LoadStep::Done(Ok(mock)) && mock.chain()
                    == crate::der_chain::encodings(chain@) && mock.key() == scalar@,
                Err(error) => res == LoadStep::Done(
                    Err(HeliosRotMockError::SigningKeyDecode { path: alias, error }),
                ),
            },
    {
        match decoded {
            Ok(alias_key) => LoadStep::Done(Ok(HeliosRotMock { certs: chain, alias_key })),
            Err(error) => LoadStep::Done(
                Err(HeliosRotMockError::SigningKeyDecode { path: alias, error }),
            ),
        }
    }
}

impl HeliosRotMock {
    /// The encodings of the certificates of the chain.
    pub closed spec fn chain(self) -> Seq<Seq<u8>> {
        crate::der_chain::encodings(self.certs@)
    }

    /// The secret scalar of the key.
    pub closed spec fn key(self) -> Seq<u8> {
        self.alias_key@
    }

    /// Loads the stand-in from the texts of a file with its certificate chain and of one with
    /// its key.
    pub fn load(
        certs: PathBuf,
        certs_text: FileText,
        alias: PathBuf,
        alias_text: FileText,
    ) -> (res: Result<HeliosRotMock, HeliosRotMockError>)
        requires
            certs_admitted(certs_text),
        ensures
            match (res, load_outcome(certs, certs_text, alias, alias_text)) {
                (Ok(mock), Ok((ders, scalar))) => mock.chain() == ders && mock.key() == scalar,
                (Err(e), Err(expected)) => e == expected,
                _ => false,
            },
    {
        match MockLoad::start(certs, alias).step(certs_text) {
            LoadStep::Read(load) => match load.step(alias_text) {
                LoadStep::Done(res) => res,
                LoadStep::Read(_) => vstd::pervasive::unreached(),
            },
            LoadStep::Done(res) => res,
        }
    }

    /// Loads the stand-in as [`HeliosRotMock::load`] does, or gives `None` where the file of
    /// certificates holds a text that their reader gives no answer to.
    pub fn try_load(
        certs: PathBuf,
        certs_text: FileText,
        alias: PathBuf,
        alias_text: FileText,
    ) -> (res: Option<Result<HeliosRotMock, HeliosRotMockError>>)
        ensures
            res is Some <==> certs_admitted(certs_text),
            res matches Some(loaded) ==> match (
                loaded,
                load_outcome(certs, certs_text, alias, alias_text),
            ) {
                (Ok(mock), Ok((ders, scalar))) => mock.chain() == ders && mock.key() == scalar,
                (Err(e), Err(expected)) => e == expected,
                _ => false,
            },
    {
        if certs_accepted(&certs_text) {
            Some(HeliosRotMock::load(certs, certs_text, alias, alias_text))
        } else {
            None
        }
    }

    /// The certificate chain.
    pub fn get_certificates(&self) -> (res: Result<PkiPath, HeliosRotMockError>)
        ensures
            res matches Ok(certs) && crate::der_chain::encodings(certs@) == self.chain(),
    {
        let mut certs: PkiPath = Vec::with_capacity(self.certs.len());
        while certs.len() < self.certs.len()
            invariant
                certs@.len() <= self.certs@.len(),
                forall|i: int| 0 <= i < certs@.len() ==> (#[trigger] certs@[i])@ == self.certs@[i]@,
            decreases self.certs@.len() - certs@.len(),
        {
            certs.push(self.certs[certs.len()].clone());
        }
        assert(crate::der_chain::encodings(certs@) =~= crate::der_chain::encodings(self.certs@));
        Ok(certs)
    }

    /// An attestation of the nonce: its signature with the key.
    pub fn attest(&self, nonce: &Nonce) -> (res: Result<Attestation, HeliosRotMockError>)
        ensures
            crate::helios::signature_of(res) == match p384_signature(self.key(), nonce@) {
                Ok(signature) => Ok(signature),
                Err(e) => Err(HeliosRotMockError::SigningError(e)),
            },
            res matches Ok(attestation) ==> self.confirmed(*nonce, attestation),
    {
        HeliosRotMock::attestation(sign(self.alias_key.as_slice(), nonce.as_ref()))
    }

    /// The attestation is one of the nonce with the key.
    pub open spec fn confirmed(self, nonce: Nonce, attestation: Attestation) -> bool {
        p384_verification(self.key(), nonce@, attestation@) is Ok
    }

    /// Tells whether an attestation is one of the nonce with the key.
    pub fn confirms(&self, nonce: &Nonce, attestation: &Attestation) -> (res: bool)
        ensures
            res == self.confirmed(*nonce, *attestation),
    {
        let signature = match attestation {
            Attestation::P384(signature) => signature.as_ref(),
        };
        verify(self.alias_key.as_slice(), nonce.as_ref(), signature).is_ok()
    }

    /// The attestation with the signature that came of signing.
    pub fn attestation(signed: Result<Vec<u8>, EcdsaError>) -> (res: Result<
        Attestation,
        HeliosRotMockError,
    >)
        ensures
            crate::helios::signature_of(res) == match signed {
                Err(e) => Err(HeliosRotMockError::SigningError(e)),
                Ok(bytes) => match crate::helios::signature_outcome(bytes@) {
                    Err(e) => Err(HeliosRotMockError::SignatureSize(e)),
                    Ok(signature) => Ok(signature),
                },
            },
    {
        let bytes = match signed {
            Ok(bytes) => bytes,
            Err(e) => {
                return Err(HeliosRotMockError::from(e));
            },
        };
        match Attestation::from_signature(bytes.as_slice()) {
            Ok(attestation) => Ok(attestation),
            Err(e) => Err(HeliosRotMockError::from(e)),
        }
    }
}

/// The stand-in is loaded exactly if both files can be read and decoded, and then has the
/// chain of the one and the key of the other. A failure of the chain's file is reported
/// whatever the key's file holds.
pub proof fn law_load_needs_both_files(
    certs: PathBuf,
    certs_text: FileText,
    alias: PathBuf,
    alias_text: FileText,
)
    ensures
        load_outcome(certs, certs_text, alias, alias_text) is Ok <==> certs_outcome(
            certs,
            certs_text,
        ) is Ok && alias_outcome(alias, alias_text) is Ok,
        certs_outcome(certs, certs_text) matches Err(e) ==> load_outcome(
            certs,
            certs_text,
            alias,
            alias_text,
        ) == Err::<(Seq<Seq<u8>>, Seq<u8>), HeliosRotMockError>(e),
{
}

/// An attestation that a loaded stand-in gives is one that the key in the file it was loaded
/// from confirms for the nonce, and has the length of a signature.
pub proof fn law_loaded_mock_attests_with_file_key(
    certs: PathBuf,
    certs_text: FileText,
    alias: PathBuf,
    alias_text: FileText,
    mock: HeliosRotMock,
    nonce: Nonce,
    attestation: Attestation,
)
    requires
        load_outcome(certs, certs_text, alias, alias_text) == Ok::<_, HeliosRotMockError>(
            (mock.chain(), mock.key()),
        ),
        p384_signature(mock.key(), nonce@) == Ok::<_, EcdsaError>(attestation@),
        mock.confirmed(nonce, attestation),
    ensures
        alias_text matches Ok(pem) && (pkcs8_scalar(pem@) matches Ok(scalar) && (p384_verification(
            scalar,
            nonce@,
            attestation@,
        ) is Ok)),
        attestation@.len() == crate::helios::SIGNATURE_SIZE,
{
}

/// The certificates are in the first file to be read, and the key in the second.
pub proof fn law_chain_is_read_before_key(
    certs: PathBuf,
    alias: PathBuf,
    load: MockLoad,
    path: &PathBuf,
)
    requires
        call_ensures(MockLoad::start, (certs, alias), load),
        call_ensures(MockLoad::path, (&load,), path),
    ensures
        load == (MockLoad::Certs { certs, alias }),
        *path == certs,
        forall|chain: PkiPath, next: &PathBuf|
            call_ensures(MockLoad::path, (&(MockLoad::AliasKey { chain, alias }),), next) ==> *next
                == alias,
{
}

/// A text is not accepted in exactly one case: it is that of the file of certificates, and their
/// reader gives no answer to it.
pub proof fn law_accepted_texts(load: MockLoad, text: FileText, res: bool)
    requires
        call_ensures(MockLoad::accepts, (&load, &text), res),
    ensures
        res == load.admits(text),
        !res <==> load is Certs && (text matches Ok(pem) && (crate::pem::is_blank(
            vstd::utf8::encode_utf8(pem@),
        ) || crate::pem::stalls(vstd::utf8::encode_utf8(pem@)))),
{
}

/// From the file of certificates the loading goes on with the certificates that their reader
/// found, in its order, and to the file of the key. It ends where the file cannot be read, which
/// tells its path, and where the reader found none.
pub proof fn law_step_takes_the_chain(
    certs: PathBuf,
    alias: PathBuf,
    text: FileText,
    res: LoadStep,
)
    requires
        text matches Ok(pem) ==> crate::pem::is_answered(vstd::utf8::encode_utf8(pem@)),
        call_ensures(MockLoad::step, (MockLoad::Certs { certs, alias }, text), res),
    ensures
        text matches Err(error) ==> res == LoadStep::Done(
            Err(HeliosRotMockError::FileRead { path: certs, error }),
        ),
        text matches Ok(pem) ==> match crate::pem::pem_chain(vstd::utf8::encode_utf8(pem@)) {
            Err(e) => res == LoadStep::Done(Err(HeliosRotMockError::DerError(e))),
            Ok(ders) => {
                &&& res matches LoadStep::Read(MockLoad::AliasKey { chain, alias: next })
                &&& next == alias
                &&& chain@.len() == ders.len()
                &&& forall|i: int| 0 <= i < ders.len() ==> (#[trigger] chain@[i]).der@ == ders[i]
            },
        },
{
    if let Ok(pem) = text {
        if let Ok(ders) = crate::pem::pem_chain(vstd::utf8::encode_utf8(pem@)) {
            if let LoadStep::Read(MockLoad::AliasKey { chain, alias: next }) = res {
                assert forall|i: int| 0 <= i < ders.len() implies (#[trigger] chain@[i]).der@
                    == ders[i] by {
                    assert(crate::der_chain::encodings(chain@)[i] == ders[i]);
                }
            }
        }
    }
}

/// From the file of the key the loading ends: with a stand-in that has the key in the file, or
/// with what was wrong with the file and its path.
pub proof fn law_step_takes_the_key(
    chain: PkiPath,
    alias: PathBuf,
    text: FileText,
    res: LoadStep,
)
    requires
        call_ensures(MockLoad::step, (MockLoad::AliasKey { chain, alias }, text), res),
    ensures
        text matches Err(error) ==> res == LoadStep::Done(
            Err(HeliosRotMockError::FileRead { path: alias, error }),
        ),
        text matches Ok(pem) ==> match pkcs8_scalar(pem@) {
            Err(error) => res == LoadStep::Done(
                Err(HeliosRotMockError::SigningKeyDecode { path: alias, error }),
            ),
            Ok(scalar) => res matches LoadStep::Done(Ok(mock)) && mock.key() == scalar,
        },
{
}

/// The stand-in that the loading ends with hands out the certificates that were read before the
/// key, in their order.
pub proof fn law_step_keeps_the_chain(
    chain: PkiPath,
    alias: PathBuf,
    text: FileText,
    mock: HeliosRotMock,
    certs: Result<PkiPath, HeliosRotMockError>,
)
    requires
        call_ensures(
            MockLoad::step,
            (MockLoad::AliasKey { chain, alias }, text),
            LoadStep::Done(Ok(mock)),
        ),
        call_ensures(HeliosRotMock::get_certificates, (&mock,), certs),
    ensures
        certs matches Ok(certs) && certs@.len() == chain@.len() && forall|i: int|
            0 <= i < certs@.len() ==> (#[trigger] certs@[i]).der@ == chain@[i].der@,
{
    lemma_hands_out(certs, mock);
}

/// A stand-in hands out the certificates of its chain.
proof fn lemma_hands_out(certs: Result<PkiPath, HeliosRotMockError>, mock: HeliosRotMock)
    requires
        call_ensures(HeliosRotMock::get_certificates, (&mock,), certs),
    ensures
        certs matches Ok(certs) && certs@.len() == mock.chain().len() && forall|i: int|
            0 <= i < certs@.len() ==> (#[trigger] certs@[i]).der@ == mock.chain()[i],
{
    if let Ok(chain) = certs {
        assert forall|i: int| 0 <= i < mock.chain().len() implies (#[trigger] chain@[i]).der@
            == mock.chain()[i] by {
            assert(crate::der_chain::encodings(chain@)[i] == mock.chain()[i]);
        }
    }
}

/// A stand-in that is loaded hands out the certificates that the reader found in the file, all of
/// them and in its order.
pub proof fn law_loaded_chain_is_the_files(
    certs: PathBuf,
    certs_text: FileText,
    alias: PathBuf,
    alias_text: FileText,
    mock: HeliosRotMock,
    res: Result<PkiPath, HeliosRotMockError>,
)
    requires
        call_ensures(HeliosRotMock::load, (certs, certs_text, alias, alias_text), Ok(mock)),
        call_ensures(HeliosRotMock::get_certificates, (&mock,), res),
    ensures
        certs_text matches Ok(pem) && (crate::pem::pem_chain(vstd::utf8::encode_utf8(pem@)) matches Ok(
            ders,
        ) && mock.chain() == ders && (res matches Ok(handed) && handed@.len() == ders.len()
            && forall|i: int|
            0 <= i < ders.len() ==> (#[trigger] handed@[i]).der@ == ders[i])),
{
    lemma_hands_out(res, mock);
}

/// A stand-in is loaded exactly if both files can be read and decoded. Otherwise what is told is
/// what was wrong with the file of certificates, and only then what was wrong with that of the
/// key, each with the path of its own file.
pub proof fn law_load_tells_first_failure(
    certs: PathBuf,
    certs_text: FileText,
    alias: PathBuf,
    alias_text: FileText,
    res: Result<HeliosRotMock, HeliosRotMockError>,
)
    requires
        call_ensures(HeliosRotMock::load, (certs, certs_text, alias, alias_text), res),
    ensures
        match certs_text {
            Err(error) => res matches Err(e) && e == (HeliosRotMockError::FileRead {
                path: certs,
                error,
            }),
            Ok(pem) => match crate::pem::pem_chain(vstd::utf8::encode_utf8(pem@)) {
                Err(error) => res matches Err(e) && e == HeliosRotMockError::DerError(error),
                Ok(ders) => match alias_text {
                    Err(error) => res matches Err(e) && e == (HeliosRotMockError::FileRead {
                        path: alias,
                        error,
                    }),
                    Ok(key) => match pkcs8_scalar(key@) {
                        Err(error) => res matches Err(e) && e == (
                        HeliosRotMockError::SigningKeyDecode { path: alias, error }),
                        Ok(scalar) => res matches Ok(mock) && mock.key() == scalar && mock.chain()
                            == ders,
                    },
                },
            },
        },
{
}

/// Trying to load is loading, wherever the reader of certificates gives an answer to the file.
pub proof fn law_try_load_is_load(
    certs: PathBuf,
    certs_text: FileText,
    alias: PathBuf,
    alias_text: FileText,
    res: Option<Result<HeliosRotMock, HeliosRotMockError>>,
    loaded: Result<HeliosRotMock, HeliosRotMockError>,
)
    requires
        call_ensures(HeliosRotMock::try_load, (certs, certs_text, alias, alias_text), res),
        call_ensures(HeliosRotMock::load, (certs, certs_text, alias, alias_text), loaded),
    ensures
        res is None <==> (certs_text matches Ok(pem) && (crate::pem::is_blank(
            vstd::utf8::encode_utf8(pem@),
        ) || crate::pem::stalls(vstd::utf8::encode_utf8(pem@)))),
        res matches Some(tried) ==> match (tried, loaded) {
            (Ok(a), Ok(b)) => a.chain() == b.chain() && a.key() == b.key(),
            (Err(a), Err(b)) => a == b,
            _ => false,
        },
{
}

/// A stand-in that is loaded signs the bytes of the nonce with the key in the file, and the
/// signature is the attestation, byte for byte. That of signing is the only failure. What it
/// gives, it confirms, and it confirms just what the key in the file does.
pub proof fn law_loaded_mock_signs_the_nonce(
    certs: PathBuf,
    certs_text: FileText,
    alias: PathBuf,
    alias_text: FileText,
    mock: HeliosRotMock,
    nonce: Nonce,
    res: Result<Attestation, HeliosRotMockError>,
)
    requires
        call_ensures(HeliosRotMock::load, (certs, certs_text, alias, alias_text), Ok(mock)),
        call_ensures(HeliosRotMock::attest, (&mock, &nonce), res),
    ensures
        alias_text matches Ok(pem) && (pkcs8_scalar(pem@) matches Ok(scalar) && (
        nonce matches Nonce::N48(bytes) && match p384_signature(scalar, bytes.0@) {
            Err(e) => res matches Err(failure) && failure == HeliosRotMockError::SigningError(e),
            Ok(signed) => res matches Ok(Attestation::P384(signature)) && signature.0@ == signed
                && signed.len() == 96 && p384_verification(scalar, bytes.0@, signature.0@) is Ok,
        })),
{
}

/// An attestation is confirmed exactly if it verifies for the bytes of the nonce under the key
/// in the file.
pub proof fn law_loaded_mock_confirms(
    certs: PathBuf,
    certs_text: FileText,
    alias: PathBuf,
    alias_text: FileText,
    mock: HeliosRotMock,
    nonce: Nonce,
    attestation: Attestation,
    res: bool,
)
    requires
        call_ensures(HeliosRotMock::load, (certs, certs_text, alias, alias_text), Ok(mock)),
        call_ensures(HeliosRotMock::confirms, (&mock, &nonce, &attestation), res),
    ensures
        alias_text matches Ok(pem) && (pkcs8_scalar(pem@) matches Ok(scalar) && (
        nonce matches Nonce::N48(bytes) && (attestation matches Attestation::P384(signature)
            && res == (p384_verification(scalar, bytes.0@, signature.0@) is Ok)))),
{
}

/// A signature of 96 bytes is the attestation, byte for byte. One of another length is refused,
/// and the failure to sign is handed on.
pub proof fn law_signed_is_the_attestation(
    signed: Result<Vec<u8>, EcdsaError>,
    res: Result<Attestation, HeliosRotMockError>,
)
    requires
        call_ensures(HeliosRotMock::attestation, (signed,), res),
    ensures
        signed matches Err(e) ==> res == Err::<Attestation, _>(HeliosRotMockError::SigningError(e)),
        signed matches Ok(bytes) ==> (bytes@.len() == 96 ==> (res matches Ok(
            Attestation::P384(signature),
        ) && forall|i: int| 0 <= i < 96 ==> #[trigger] signature.0@[i] == bytes@[i])),
        signed matches Ok(bytes) ==> (bytes@.len() != 96 ==> (res matches Err(
            HeliosRotMockError::SignatureSize(ArrayError::TryFromSliceError { expected, actual }),
        ) && expected == 96 && actual == bytes@.len())),
{
    if let Ok(bytes) = signed {
        assert(bytes.len() == bytes@.len());
    }
}

/// What failed is carried in the error unchanged.
pub proof fn law_mock_failure_is_kept(der: DerError, size: ArrayError, signing: EcdsaError)
    ensures
        <HeliosRotMockError as vstd::std_specs::convert::FromSpec<DerError>>::from_spec(der)
            == HeliosRotMockError::DerError(der),
        <HeliosRotMockError as vstd::std_specs::convert::FromSpec<ArrayError>>::from_spec(size)
            == HeliosRotMockError::SignatureSize(size),
        <HeliosRotMockError as vstd::std_specs::convert::FromSpec<EcdsaError>>::from_spec(signing)
            == HeliosRotMockError::SigningError(signing),
{
}

/// Decoded certificates are kept as they are while the key is read, and are then handed out in
/// their order, beside the key that was decoded. What could not be decoded ends the loading.
pub proof fn law_decoded_files_make_the_mock(
    alias: PathBuf,
    chain: PkiPath,
    alias_key: Vec<u8>,
    der: DerError,
    pkcs8: Pkcs8Error,
    mock: HeliosRotMock,
    certs: Result<PkiPath, HeliosRotMockError>,
)
    requires
        call_ensures(
            MockLoad::after_alias,
            (chain, alias, Ok(alias_key)),
            LoadStep::Done(Ok(mock)),
        ),
        call_ensures(HeliosRotMock::get_certificates, (&mock,), certs),
    ensures
        mock.key() == alias_key@,
        certs matches Ok(certs) && certs@.len() == chain@.len() && forall|i: int|
            0 <= i < certs@.len() ==> (#[trigger] certs@[i]).der@ == chain@[i].der@,
        forall|step: LoadStep|
            call_ensures(MockLoad::after_certs, (alias, Ok(chain)), step) ==> step
                == LoadStep::Read(MockLoad::AliasKey { chain, alias }),
        forall|step: LoadStep|
            call_ensures(MockLoad::after_certs, (alias, Err(der)), step) ==> step
                == LoadStep::Done(Err(HeliosRotMockError::DerError(der))),
        forall|step: LoadStep|
            call_ensures(MockLoad::after_alias, (chain, alias, Err(pkcs8)), step) ==> step
                == LoadStep::Done(
                Err(HeliosRotMockError::SigningKeyDecode { path: alias, error: pkcs8 }),
            ),
{
    lemma_hands_out(certs, mock);
}

} // verus!
