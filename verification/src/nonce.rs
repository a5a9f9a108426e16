//! Nonces that make an attestation fresh.

use getrandom::Error as RngError;
use vstd::prelude::*;

use crate::array::Array;

verus! {

/// Why the platform gave no random bytes, carried unread.
#[verifier::external_type_specification]
#[verifier::external_body]
pub struct ExRngError(RngError);

/// `getrandom::fill` writes random bytes over the whole of a buffer, here handed over and back
/// by value, and tells whether it did. What the bytes are, and whether the platform has any to
/// give, is left open: both are a matter of chance and of the machine. After a failure part of
/// the buffer may have been written.
#[verifier::external_body]
fn fill(buffer: [u8; 48]) -> (res: ([u8; 48], Result<(), RngError>)) {
    let mut bytes = buffer;
    let filled = getrandom::fill(&mut bytes);
    (bytes, filled)
}

/// Why there is no nonce.
#[derive(Debug)]
pub enum NonceError {
    /// Only 48 byte nonces are supported.
    UnsupportedLength,
    /// The random number generator of the platform failed.
    Rng(RngError),
}

impl From<RngError> for NonceError {
    fn from(error: RngError) -> (res: Self) {
        NonceError::Rng(error)
    }
}

impl vstd::std_specs::convert::FromSpecImpl<RngError> for NonceError {
    open spec fn obeys_from_spec() -> bool {
        true
    }

    open spec fn from_spec(error: RngError) -> Self {
        NonceError::Rng(error)
    }
}

/// The bytes of a 48-byte nonce.
pub type Nonce48 = Array<48>;

impl Array<48> {
    /// The length of the array.
    pub const LENGTH: usize = 48;
}

/// A nonce.
#[derive(Copy, Clone, Debug, PartialEq)]
pub enum Nonce {
    /// A 48-byte Nonce value.
    N48(Nonce48),
}

impl View for Nonce {
    type V = Seq<u8>;

    open spec fn view(&self) -> Seq<u8> {
        match self {
            Nonce::N48(bytes) => bytes@,
        }
    }
}

/// The generator of the platform was asked to fill a buffer as long as a nonce: `bytes` is what
/// it left there, and `filled` is what it answered.
pub closed spec fn is_drawn(bytes: Nonce48, filled: Result<(), RngError>) -> bool {
    exists|buffer: [u8; 48]| #[trigger] call_ensures(fill, (buffer,), (bytes.0, filled))
}

/// The nonce of the given bytes where the generator filled them, or the generator's failure.
pub open spec fn filled_outcome(bytes: Nonce48, filled: Result<(), RngError>) -> Result<
    Nonce,
    NonceError,
> {
    match filled {
        Ok(_) => Ok(Nonce::N48(bytes)),
        Err(error) => Err(NonceError::Rng(error)),
    }
}

impl Nonce {
    /// A random nonce of `len` bytes, which the platform's generator provides. The only
    /// length there is a nonce of is 48. The nonce is then made of bytes that the generator
    /// filled, or the error is the one that it failed with. For any other length no random
    /// bytes are drawn.
    pub fn from_platform_rng(len: usize) -> (res: Result<Self, NonceError>)
        ensures
            res matches Err(NonceError::UnsupportedLength) <==> len != Nonce48::LENGTH,
            res matches Ok(nonce) ==> nonce@.len() == len,
            len == Nonce48::LENGTH ==> exists|bytes: Nonce48, filled: Result<(), RngError>|
                #[trigger] is_drawn(bytes, filled) && res == filled_outcome(bytes, filled),
    {
        if len != Nonce48::LENGTH {
            return Err(NonceError::UnsupportedLength);
        }
        let buffer: [u8; 48] = [0u8; Nonce48::LENGTH];
        let drawn = fill(buffer);
        assert(call_ensures(fill, (buffer,), drawn));
        let nonce: Nonce48 = Array(drawn.0);
        assert(is_drawn(nonce, drawn.1));
        Nonce::from_filled(nonce, drawn.1)
    }

    /// The nonce of the given bytes, where the generator reports that it filled them.
    pub fn from_filled(bytes: Nonce48, filled: Result<(), RngError>) -> (res: Result<
        Self,
        NonceError,
    >)
        ensures
            res == filled_outcome(bytes, filled),
    {
        match filled {
            Ok(_) => Ok(Nonce::N48(bytes)),
            Err(error) => Err(NonceError::from(error)),
        }
    }
}

impl AsRef<[u8]> for Nonce {
    fn as_ref(&self) -> (res: &[u8])
        ensures
            res@ == self@,
            self matches Nonce::N48(n) && res@ == n.0@,
    {
        match self {
            Nonce::N48(n) => n.as_ref(),
        }
    }
}

/// Every nonce has 48 bytes.
pub proof fn law_nonce_length(nonce: Nonce)
    ensures
        nonce@.len() == Nonce48::LENGTH,
{
}

/// What the generator is said to have left and answered is the outcome of a call of it.
proof fn lemma_drawn_is_an_outcome(bytes: Nonce48, filled: Result<(), RngError>)
    requires
        is_drawn(bytes, filled),
    ensures
        exists|buffer: [u8; 48]| #[trigger] call_ensures(fill, (buffer,), (bytes.0, filled)),
{
}

/// A nonce of filled bytes has each of them at its place. The generator's failure is handed on.
pub proof fn law_nonce_is_what_was_filled(
    bytes: Nonce48,
    filled: Result<(), RngError>,
    res: Result<Nonce, NonceError>,
)
    requires
        call_ensures(Nonce::from_filled, (bytes, filled), res),
    ensures
        filled is Ok ==> (res matches Ok(Nonce::N48(nonce)) && forall|i: int|
            0 <= i < 48 ==> #[trigger] nonce.0@[i] == bytes.0@[i]),
        filled matches Err(error) ==> res == Err::<Nonce, _>(NonceError::Rng(error)),
{
}

/// A nonce from the platform's generator is all that one call of it left in the buffer, in that
/// order. The only other outcomes are that call's failure, and the refusal of every length but
/// 48.
pub proof fn law_nonce_is_what_was_drawn(len: usize, res: Result<Nonce, NonceError>)
    requires
        call_ensures(Nonce::from_platform_rng, (len,), res),
    ensures
        len != 48 ==> res == Err::<Nonce, _>(NonceError::UnsupportedLength),
        len == 48 ==> !(res matches Err(NonceError::UnsupportedLength)),
        res matches Ok(Nonce::N48(nonce)) ==> exists|bytes: Nonce48| #[trigger]
            is_drawn(bytes, Ok(())) && forall|i: int|
            0 <= i < 48 ==> #[trigger] nonce.0@[i] == bytes.0@[i],
        res matches Err(NonceError::Rng(error)) ==> exists|
            bytes: Nonce48,
            filled: Result<(), RngError>,
        | #[trigger] is_drawn(bytes, filled) && filled == Err::<(), RngError>(error),
{
    if len == 48 {
        let (bytes, filled) = choose|bytes: Nonce48, filled: Result<(), RngError>|
            #[trigger] is_drawn(bytes, filled) && res == filled_outcome(bytes, filled);
        lemma_drawn_is_an_outcome(bytes, filled);
        assert(is_drawn(bytes, filled) && res == filled_outcome(bytes, filled));
        match filled {
            Ok(unit) => {
                assert(unit == ());
                assert(is_drawn(bytes, Ok(())));
            },
            Err(_) => {},
        }
    }
}

/// The bytes of a nonce are those that it is made of, in that order.
pub proof fn law_nonce_bytes(nonce: Nonce)
    ensures
        nonce@.len() == 48,
        nonce matches Nonce::N48(array) && forall|i: int|
            0 <= i < 48 ==> #[trigger] nonce@[i] == array.0@[i],
{
}

/// The generator's failure is carried in the error unchanged.
pub proof fn law_rng_failure_is_kept(error: RngError)
    ensures
        <NonceError as vstd::std_specs::convert::FromSpec<RngError>>::from_spec(error)
            == NonceError::Rng(error),
{
}

} // verus!
