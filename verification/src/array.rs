//! Byte arrays of a fixed length.

use vstd::prelude::*;

verus! {

/// Why bytes do not make an array.
#[derive(Debug, Clone, Copy, PartialEq, Eq, Structural)]
pub enum ArrayError {
    /// The slice is not as long as the array.
    TryFromSliceError { expected: usize, actual: usize },
}

/// An array of `N` bytes.
#[derive(Clone, Copy, Debug, Eq, Hash, PartialEq)]
pub struct Array<const N: usize>(pub [u8; N]);

impl<const N: usize> View for Array<N> {
    type V = Seq<u8>;

    open spec fn view(&self) -> Seq<u8> {
        self.0@
    }
}

impl<const N: usize> Array<N> {
    /// The array that holds `bytes`.
    pub open spec fn holding(bytes: Seq<u8>) -> Self {
        choose|a: Self| a@ == bytes
    }
}

/// An array is determined by its bytes.
proof fn lemma_holding<const N: usize>(a: Array<N>)
    ensures
        Array::<N>::holding(a@) == a,
{
    let b = Array::<N>::holding(a@);
    assert(b@ == a@);
    assert forall|i: int| 0 <= i < N implies a.0[i] == b.0[i] by {
        assert(a@[i] == b@[i]);
    }
    assert(a.0 =~= b.0);
}

impl<const N: usize> AsRef<[u8]> for Array<N> {
    fn as_ref(&self) -> (res: &[u8])
        ensures
            res@ == self@,
            res@ == self.0@,
    {
        self.0.as_slice()
    }
}

impl<const N: usize> TryFrom<&[u8]> for Array<N> {
    type Error = ArrayError;

    /// Attempt to create an `Array<N>` from the slice provided.
    fn try_from(item: &[u8]) -> (res: Result<Self, ArrayError>)
        ensures
            match res {
                Ok(array) => item@.len() == N && array@ == item@,
                Err(ArrayError::TryFromSliceError { expected, actual }) => item@.len() != N
                    && expected == N && actual == item@.len(),
            },
    {
        if item.len() != N {
            return Err(ArrayError::TryFromSliceError { expected: N, actual: item.len() });
        }
        let mut bytes: [u8; N] = [0u8; N];
        let mut i: usize = 0;
        while i < N
            invariant
                i <= N,
                item@.len() == N,
                bytes@.take(i as int) == item@.take(i as int),
            decreases N - i,
        {
            bytes[i] = item[i];
            assert(bytes@.take(i + 1) == item@.take(i + 1));
            i = i + 1;
        }
        assert(bytes@ == bytes@.take(N as int));
        assert(item@ == item@.take(N as int));
        let array = Array(bytes);
        proof {
            lemma_holding(array);
        }
        Ok(array)
    }
}

impl<const N: usize> vstd::std_specs::convert::TryFromSpecImpl<&[u8]> for Array<N> {
    open spec fn obeys_try_from_spec() -> bool {
        true
    }

    open spec fn try_from_spec(item: &[u8]) -> Result<Self, ArrayError> {
        if item@.len() == N {
            Ok(Array::<N>::holding(item@))
        } else {
            Err(
                ArrayError::TryFromSliceError { expected: N, actual: item@.len() as usize },
            )
        }
    }
}

/// An array made of the bytes of an array is that array.
pub proof fn law_array_from_own_bytes<const N: usize>(array: Array<N>, item: &[u8])
    requires
        item@ == array@,
    ensures
        <Array<N> as vstd::std_specs::convert::TryFromSpec<&[u8]>>::try_from_spec(item) == Ok::<
            Array<N>,
            ArrayError,
        >(array),
{
    lemma_holding(array);
}

/// An array is made of a slice exactly if their lengths agree, and then holds each of its bytes
/// at its place. The refusal tells both lengths.
pub proof fn law_array_holds_the_slice<const N: usize>(
    item: &[u8],
    res: Result<Array<N>, ArrayError>,
)
    requires
        call_ensures(<Array<N> as TryFrom<&[u8]>>::try_from, (item,), res),
    ensures
        item@.len() == N ==> (res matches Ok(array) && forall|i: int|
            0 <= i < N ==> #[trigger] array.0@[i] == item@[i]),
        item@.len() != N ==> (res matches Err(ArrayError::TryFromSliceError { expected, actual })
            && expected == N && actual == item@.len()),
{
}

/// The bytes of an array are those that it is made of, in that order.
pub proof fn law_array_bytes<const N: usize>(array: Array<N>)
    ensures
        array@.len() == N,
        forall|i: int| 0 <= i < N ==> #[trigger] array@[i] == array.0@[i],
{
}

} // verus!
