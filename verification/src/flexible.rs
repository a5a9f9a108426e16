//! Structures that end in a flexible array member.

use vstd::prelude::*;

use crate::error::Error;
use crate::ffi::{OsRotCerts, RawOsRotError};
use crate::layout::{joint_align, lemma_round_up, lemma_round_up_least, round_up, Layout};

verus! {

/// Upper bound (arbitrarily chosen) on the trailing array we'll allocate for.
pub const MAX_FLEXIBLE_BYTES: usize = 16 * 1024 * 1024;

/// Size of the two `uint32_t` fields, error and count, that stand before the array.
pub const HEADER_SIZE: usize = 8;

/// Alignment of a `uint32_t`.
pub const HEADER_ALIGN: usize = 4;

/// A structure that contains an error field, followed by a count field, and ends with a
/// flexible array member:
///
/// ```c
/// struct {
///     uint32_t error;
///     uint32_t count;
///     Item items[];
/// }
/// ```
///
/// [`alloc_flexible_struct`] makes a value whose array is sized for a given capacity.
pub trait FlexibleArrayMember: Sized {
    /// Element type of the trailing flexible array member.
    type Item: Copy;

    /// The error field.
    spec fn error_field(&self) -> u32;

    /// The count field.
    spec fn count_field(&self) -> u32;

    /// The elements of the trailing array.
    spec fn items(&self) -> Vec<Self::Item>;

    /// The element whose bytes are all zero.
    spec fn zero() -> Self::Item;

    /// The element whose bytes are all zero.
    fn zeroed_item() -> (res: Self::Item)
        ensures
            res == Self::zero(),
    ;

    /// The structure with the given fields.
    fn assemble(error: u32, count: u32, items: Vec<Self::Item>) -> (res: Self)
        ensures
            res.error_field() == error,
            res.count_field() == count,
            res.items() == items,
    ;
}

impl FlexibleArrayMember for OsRotCerts {
    type Item = u8;

    open spec fn error_field(&self) -> u32 {
        self.error.0
    }

    open spec fn count_field(&self) -> u32 {
        self.chain_size
    }

    open spec fn items(&self) -> Vec<u8> {
        self.chain
    }

    open spec fn zero() -> u8 {
        0
    }

    fn zeroed_item() -> (res: u8) {
        0
    }

    fn assemble(error: u32, count: u32, items: Vec<u8>) -> (res: Self) {
        OsRotCerts { error: RawOsRotError(error), chain_size: count, chain: items }
    }
}

/// Where the array starts, for elements of the given alignment.
pub open spec fn tail_offset(item_align: nat) -> nat {
    round_up(HEADER_SIZE as nat, item_align)
}

/// The alignment of the whole structure, for elements of the given alignment.
pub open spec fn flexible_align(item_align: nat) -> nat {
    joint_align(HEADER_ALIGN as nat, item_align)
}

/// The size of the whole structure, padding included, with an array of `capacity` elements.
pub open spec fn flexible_size(item_size: nat, item_align: nat, capacity: nat) -> nat {
    round_up(tail_offset(item_align) + capacity * item_size, flexible_align(item_align))
}

/// Why there is no structure with an array of `capacity` elements: the array alone does not
/// fit the address space, it is larger than [`MAX_FLEXIBLE_BYTES`], or the whole structure
/// does not fit the address space.
pub open spec fn flexible_refusal(item_size: nat, item_align: nat, capacity: nat) -> Option<Error> {
    if capacity * item_size > isize::MAX {
        Some(Error::LayoutOverflow)
    } else if capacity * item_size > MAX_FLEXIBLE_BYTES {
        Some(Error::TooLarge { requested: (capacity * item_size) as usize })
    } else if flexible_size(item_size, item_align, capacity) > isize::MAX {
        Some(Error::LayoutOverflow)
    } else {
        None
    }
}

/// Why there is no `D` with an array of `capacity` elements.
pub open spec fn refusal<D: FlexibleArrayMember>(capacity: u32) -> Option<Error> {
    flexible_refusal(
        vstd::layout::size_of::<D::Item>(),
        vstd::layout::align_of::<D::Item>(),
        capacity as nat,
    )
}

/// The header and the array lie inside the structure, apart from each other and each on its
/// alignment, and the size of the structure is a multiple of its own alignment.
pub proof fn law_flexible_layout_holds_fields(item_size: nat, item_align: nat, capacity: nat)
    requires
        vstd::arithmetic::power2::is_pow2(item_align as int),
    ensures
        HEADER_SIZE <= tail_offset(item_align),
        tail_offset(item_align) % item_align == 0,
        tail_offset(item_align) + capacity * item_size <= flexible_size(
            item_size,
            item_align,
            capacity,
        ),
        flexible_size(item_size, item_align, capacity) % flexible_align(item_align) == 0,
        flexible_align(item_align) % HEADER_ALIGN as nat == 0,
        flexible_align(item_align) % item_align == 0,
{
    lemma_pow2_and_four(item_align);
    lemma_round_up(HEADER_SIZE as nat, item_align);
    lemma_round_up(tail_offset(item_align) + capacity * item_size, flexible_align(item_align));
    vstd::arithmetic::div_mod::lemma_mod_self_0(item_align as int);
}

/// A power of two divides four or is a multiple of it.
proof fn lemma_pow2_and_four(n: nat)
    requires
        vstd::arithmetic::power2::is_pow2(n as int),
    ensures
        n > 0,
        n <= 4 ==> 4nat % n == 0,
        n >= 4 ==> n % 4 == 0,
{
    reveal_with_fuel(vstd::arithmetic::power2::is_pow2, 4);
    if n <= 4 {
        assert(n == 1 || n == 2 || n == 4);
        assert(4nat % 1nat == 0 && 4nat % 2nat == 0 && 4nat % 4nat == 0);
    }
}

/// Of the certificate chain buffer: the chain starts right behind the header, the structure
/// is as long as both, rounded up to the alignment of a `uint32_t`, and no chain of up to
/// [`MAX_FLEXIBLE_BYTES`] bytes is refused. A longer one is refused for its size, which the
/// error repeats, or because it does not fit the address space.
pub proof fn law_certs_layout(capacity: u32)
    ensures
        tail_offset(vstd::layout::align_of::<u8>()) == HEADER_SIZE,
        flexible_align(vstd::layout::align_of::<u8>()) == HEADER_ALIGN,
        flexible_size(
            vstd::layout::size_of::<u8>(),
            vstd::layout::align_of::<u8>(),
            capacity as nat,
        ) == round_up(HEADER_SIZE as nat + capacity as nat, HEADER_ALIGN as nat),
        refusal::<OsRotCerts>(capacity) == (if capacity <= MAX_FLEXIBLE_BYTES {
            None
        } else if capacity <= isize::MAX {
            Some(Error::TooLarge { requested: capacity as usize })
        } else {
            Some(Error::LayoutOverflow)
        }),
{
    broadcast use {vstd::layout::layout_of_primitives, vstd::layout::align_of_u8};

    assert(vstd::layout::align_of::<u8>() == 1);
    lemma_round_up_least(HEADER_SIZE as nat, 1, HEADER_SIZE as nat);
    lemma_round_up(HEADER_SIZE as nat + capacity as nat, HEADER_ALIGN as nat);
}

/// The memory layout of a `D` with an array of `capacity` elements: a header of two
/// `uint32_t` fields followed by the array.
pub fn flexible_layout<D: FlexibleArrayMember>(capacity: u32) -> (res: Result<Layout, Error>)
    ensures
        match res {
            Ok(layout) => {
                &&& refusal::<D>(capacity) is None
                &&& layout.bytes() == flexible_size(
                    vstd::layout::size_of::<D::Item>(),
                    vstd::layout::align_of::<D::Item>(),
                    capacity as nat,
                )
                &&& layout.alignment() == flexible_align(vstd::layout::align_of::<D::Item>())
            },
            Err(e) => refusal::<D>(capacity) == Some(e),
        },
{
    let array = match Layout::array::<D::Item>(capacity as usize) {
        Ok(array) => array,
        Err(_) => {
            return Err(Error::LayoutOverflow);
        },
    };
    if array.size() > MAX_FLEXIBLE_BYTES {
        return Err(Error::TooLarge { requested: array.size() });
    }
    match Layout::from_size_align(HEADER_SIZE, HEADER_ALIGN) {
        Ok(header) => match header.extend(array) {
            Ok((layout, _)) => Ok(layout.pad_to_align()),
            Err(_) => Err(Error::LayoutOverflow),
        },
        Err(_) => Err(Error::LayoutOverflow),
    }
}

/// A `D` whose error field is zero, whose count field is `capacity`, and whose array holds
/// `capacity` zeroed elements.
pub fn alloc_flexible_struct<D: FlexibleArrayMember>(capacity: u32) -> (res: Result<Box<D>, Error>)
    ensures
        match res {
            Ok(d) => {
                &&& refusal::<D>(capacity) is None
                &&& d.error_field() == 0
                &&& d.count_field() == capacity
                &&& d.items()@ == Seq::new(capacity as nat, |i: int| D::zero())
            },
            Err(e) => refusal::<D>(capacity) == Some(e),
        },
{
    match flexible_layout::<D>(capacity) {
        Ok(_) => {},
        Err(e) => {
            return Err(e);
        },
    }
    let mut items: Vec<D::Item> = Vec::with_capacity(capacity as usize);
    while items.len() < capacity as usize
        invariant
            items@ == Seq::new(items@.len(), |i: int| D::zero()),
            items@.len() <= capacity,
        decreases capacity - items@.len(),
    {
        items.push(D::zeroed_item());
    }
    Ok(Box::new(D::assemble(0, capacity, items)))
}

/// The array starts at the least multiple of its alignment that leaves room for the header, the
/// structure has the larger alignment of the two, and ends at the least multiple of that which
/// leaves room for the array.
pub proof fn law_flexible_layout_is_tight(item_size: nat, item_align: nat, capacity: nat, m: nat)
    requires
        vstd::arithmetic::power2::is_pow2(item_align as int),
    ensures
        m >= 8 && m % item_align == 0 ==> tail_offset(item_align) <= m,
        flexible_align(item_align) == 4 || flexible_align(item_align) == item_align,
        flexible_align(item_align) >= 4 && flexible_align(item_align) >= item_align,
        m >= tail_offset(item_align) + capacity * item_size && m % flexible_align(item_align) == 0
            ==> flexible_size(item_size, item_align, capacity) <= m,
{
    lemma_pow2_and_four(item_align);
    if m >= 8 && m % item_align == 0 {
        lemma_round_up_least(8, item_align, m);
    }
    let end = tail_offset(item_align) + capacity * item_size;
    if m >= end && m % flexible_align(item_align) == 0 {
        lemma_round_up_least(end, flexible_align(item_align), m);
    }
}

/// A structure is refused exactly if its array takes more than 16 MiB, or it does not fit the
/// address space. Where the array alone does, the error tells how much it takes.
pub proof fn law_flexible_refusals(item_size: nat, item_align: nat, capacity: nat)
    ensures
        flexible_refusal(item_size, item_align, capacity) is None <==> {
            &&& capacity * item_size <= 0x100_0000
            &&& capacity * item_size <= isize::MAX
            &&& flexible_size(item_size, item_align, capacity) <= isize::MAX
        },
        flexible_refusal(item_size, item_align, capacity) matches Some(e) ==> {
            if 0x100_0000 < capacity * item_size <= isize::MAX {
                e matches Error::TooLarge { requested } && requested == capacity * item_size
            } else {
                e == Error::LayoutOverflow
            }
        },
{
}

/// The memory of a certificate chain buffer: eight bytes of header and the chain, rounded up to
/// whole words, on the alignment of a word. It is refused exactly if the chain takes more than
/// 16 MiB, and the error tells how much.
pub proof fn law_certs_buffer_layout(capacity: u32, res: Result<Layout, Error>)
    requires
        call_ensures(flexible_layout::<OsRotCerts>, (capacity,), res),
    ensures
        match res {
            Ok(layout) => {
                &&& capacity <= 0x100_0000
                &&& 8 + capacity <= layout.bytes() < 8 + capacity + 4
                &&& layout.bytes() % 4 == 0
                &&& layout.alignment() == 4
            },
            Err(e) => {
                &&& capacity > 0x100_0000
                &&& capacity <= isize::MAX ==> e == (Error::TooLarge {
                    requested: capacity as usize,
                })
                &&& capacity > isize::MAX ==> e == Error::LayoutOverflow
            },
        },
{
    law_certs_layout(capacity);
    lemma_round_up(HEADER_SIZE as nat + capacity as nat, HEADER_ALIGN as nat);
}

/// A certificate chain buffer is made with no error, with its size in the count field, and with
/// room for just so many bytes, all of them zero. It is refused exactly if the chain takes more
/// than 16 MiB.
pub proof fn law_certs_buffer_is_zeroed(capacity: u32, res: Result<Box<OsRotCerts>, Error>)
    requires
        call_ensures(alloc_flexible_struct::<OsRotCerts>, (capacity,), res),
    ensures
        match res {
            Ok(certs) => {
                &&& capacity <= 0x100_0000
                &&& certs.error.0 == 0
                &&& certs.chain_size == capacity
                &&& certs.chain@.len() == capacity
                &&& forall|i: int| 0 <= i < capacity ==> #[trigger] certs.chain@[i] == 0
            },
            Err(e) => {
                &&& capacity > 0x100_0000
                &&& capacity <= isize::MAX ==> e == (Error::TooLarge {
                    requested: capacity as usize,
                })
                &&& capacity > isize::MAX ==> e == Error::LayoutOverflow
            },
        },
{
    law_certs_layout(capacity);
    if let Ok(certs) = res {
        assert(certs.items() == certs.chain);
    }
}

/// The fields of a certificate chain buffer as a structure with a flexible array member.
pub proof fn law_certs_fields(
    error: u32,
    count: u32,
    items: Vec<u8>,
    res: OsRotCerts,
    zeroed: u8,
)
    requires
        call_ensures(<OsRotCerts as FlexibleArrayMember>::assemble, (error, count, items), res),
        call_ensures(<OsRotCerts as FlexibleArrayMember>::zeroed_item, (), zeroed),
    ensures
        res.error.0 == error && res.error_field() == error,
        res.chain_size == count && res.count_field() == count,
        res.chain@ == items@ && res.items()@ == items@,
        zeroed == 0,
{
}

} // verus!
