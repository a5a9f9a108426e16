//! Sizes and alignments of records in memory.

use vstd::prelude::*;

verus! {

/// The least multiple of `align` that is not below `n`.
pub open spec fn round_up(n: nat, align: nat) -> nat {
    ((n + align - 1) / align as int * align) as nat
}

/// The larger of two alignments: that of a record which holds a part of each.
pub open spec fn joint_align(a: nat, b: nat) -> nat {
    if a < b {
        b
    } else {
        a
    }
}

/// `round_up` is a multiple of `align`, not below `n`, and less than `align` above it.
pub proof fn lemma_round_up(n: nat, align: nat)
    requires
        align > 0,
    ensures
        n <= round_up(n, align) < n + align,
        round_up(n, align) % align == 0,
{
    let top = n + align - 1;
    let a = align as int;
    vstd::arithmetic::div_mod::lemma_fundamental_div_mod(top, a);
    vstd::arithmetic::div_mod::lemma_mod_bound(top, a);
    vstd::arithmetic::mul::lemma_mul_is_commutative(a, top / a);
    vstd::arithmetic::div_mod::lemma_mod_multiples_basic(top / a, a);
}

/// Two different multiples of `a` lie at least `a` apart.
proof fn lemma_multiples_apart(x: int, y: int, a: int)
    requires
        a > 0,
        x % a == 0,
        y % a == 0,
        x < y,
    ensures
        y - x >= a,
{
    vstd::arithmetic::div_mod::lemma_fundamental_div_mod(x, a);
    vstd::arithmetic::div_mod::lemma_fundamental_div_mod(y, a);
    let (p, q) = (x / a, y / a);
    assert(y - x >= a) by (nonlinear_arith)
        requires
            x == a * p,
            y == a * q,
            x < y,
            a > 0,
    ;
}

/// `round_up` is the least multiple of `align` that is not below `n`.
pub proof fn lemma_round_up_least(n: nat, align: nat, m: nat)
    requires
        align > 0,
        n <= m,
        m % align == 0,
    ensures
        round_up(n, align) <= m,
        m < n + align ==> round_up(n, align) == m,
{
    lemma_round_up(n, align);
    let r = round_up(n, align);
    if m < r {
        lemma_multiples_apart(m as int, r as int, align as int);
    } else if r < m {
        lemma_multiples_apart(r as int, m as int, align as int);
    }
}

/// The size of a record does not fit the address space.
#[derive(Clone, Copy, Debug, PartialEq, Eq)]
pub struct LayoutError;

/// The size and the alignment of a record in memory.
///
/// The size, rounded up to the alignment, never exceeds `isize::MAX`.
#[derive(Clone, Copy, Debug, PartialEq, Eq)]
pub struct Layout {
    size: usize,
    align: usize,
}

impl Layout {
    /// The size in bytes.
    pub closed spec fn bytes(self) -> nat {
        self.size as nat
    }

    /// The alignment in bytes.
    pub closed spec fn alignment(self) -> nat {
        self.align as nat
    }

    #[verifier::type_invariant]
    spec fn valid(self) -> bool {
        &&& self.align > 0
        &&& round_up(self.size as nat, self.align as nat) <= isize::MAX
    }

    /// The layout of the given size and alignment, unless the size rounded up to the
    /// alignment exceeds `isize::MAX`.
    pub(crate) fn from_size_align(size: usize, align: usize) -> (res: Result<Layout, LayoutError>)
        requires
            align > 0,
        ensures
            match res {
                Ok(layout) => {
                    &&& layout.bytes() == size
                    &&& layout.alignment() == align
                    &&& round_up(size as nat, align as nat) <= isize::MAX
                },
                Err(_) => round_up(size as nat, align as nat) > isize::MAX,
            },
    {
        match round_up_usize(size, align) {
            Some(padded) => {
                if padded > isize::MAX as usize {
                    Err(LayoutError)
                } else {
                    Ok(Layout { size, align })
                }
            },
            None => Err(LayoutError),
        }
    }

    /// The layout of an array of `n` values of type `T`.
    pub fn array<T>(n: usize) -> (res: Result<Layout, LayoutError>)
        ensures
            match res {
                Ok(layout) => {
                    &&& layout.bytes() == n * vstd::layout::size_of::<T>()
                    &&& layout.alignment() == vstd::layout::align_of::<T>()
                    &&& n * vstd::layout::size_of::<T>() <= isize::MAX
                },
                Err(_) => n * vstd::layout::size_of::<T>() > isize::MAX,
            },
    {
        vstd::layout::layout_for_type_is_valid::<T>();
        let size = core::mem::size_of::<T>();
        let align = core::mem::align_of::<T>();
        let total = match size.checked_mul(n) {
            Some(total) => total,
            None => {
                assert(size * n == n * size) by (nonlinear_arith);
                return Err(LayoutError);
            },
        };
        proof {
            let s = vstd::layout::size_of::<T>();
            let a = vstd::layout::align_of::<T>();
            assert(total == n * s) by (nonlinear_arith)
                requires
                    total == size * n,
                    size == s,
            ;
            vstd::arithmetic::div_mod::lemma_mul_mod_noop_right(n as int, s as int, a as int);
            assert(n * 0 == 0);
            assert((n * s) % a as int == 0);
            lemma_round_up_least(total as nat, a, total as nat);
        }
        Layout::from_size_align(total, align)
    }

    /// The layout of `self` followed by `next`, and the offset of `next` in it. There is
    /// padding before `next` where its alignment asks for it, and none after it.
    pub fn extend(&self, next: Layout) -> (res: Result<(Layout, usize), LayoutError>)
        ensures
            ({
                let offset = round_up(self.bytes(), next.alignment());
                let align = joint_align(self.alignment(), next.alignment());
                match res {
                    Ok((layout, at)) => {
                        &&& at == offset
                        &&& layout.bytes() == offset + next.bytes()
                        &&& layout.alignment() == align
                        &&& round_up(offset + next.bytes(), align) <= isize::MAX
                    },
                    Err(_) => round_up(offset + next.bytes(), align) > isize::MAX,
                }
            }),
    {
        proof {
            use_type_invariant(self);
            use_type_invariant(&next);
            let offset = round_up(self.bytes(), next.alignment());
            let align = joint_align(self.alignment(), next.alignment());
            lemma_round_up(offset + next.bytes(), align);
        }
        let align = if self.align < next.align {
            next.align
        } else {
            self.align
        };
        let offset = match round_up_usize(self.size, next.align) {
            Some(offset) => offset,
            None => {
                return Err(LayoutError);
            },
        };
        let size = match offset.checked_add(next.size) {
            Some(size) => size,
            None => {
                return Err(LayoutError);
            },
        };
        match Layout::from_size_align(size, align) {
            Ok(layout) => Ok((layout, offset)),
            Err(_) => Err(LayoutError),
        }
    }

    /// The layout with its size rounded up to its alignment.
    pub fn pad_to_align(&self) -> (res: Layout)
        ensures
            res.bytes() == round_up(self.bytes(), self.alignment()),
            res.alignment() == self.alignment(),
    {
        proof {
            use_type_invariant(self);
            let (s, a) = (self.size as nat, self.align as nat);
            lemma_round_up(s, a);
            lemma_round_up_least(round_up(s, a), a, round_up(s, a));
        }
        let size = match round_up_usize(self.size, self.align) {
            Some(size) => size,
            None => self.size,
        };
        Layout { size, align: self.align }
    }

    /// The size in bytes.
    pub fn size(&self) -> (res: usize)
        ensures
            res == self.bytes(),
    {
        self.size
    }

    /// The alignment in bytes.
    pub fn align(&self) -> (res: usize)
        ensures
            res == self.alignment(),
    {
        self.align
    }
}

/// `round_up`, or `None` where it exceeds `usize::MAX`.
fn round_up_usize(n: usize, align: usize) -> (res: Option<usize>)
    requires
        align > 0,
    ensures
        match res {
            Some(r) => r == round_up(n as nat, align as nat),
            None => round_up(n as nat, align as nat) > usize::MAX,
        },
{
    let rem = n % align;
    proof {
        let (x, a) = (n as int, align as int);
        vstd::arithmetic::div_mod::lemma_fundamental_div_mod(x, a);
        vstd::arithmetic::div_mod::lemma_mod_bound(x, a);
        let m = if rem == 0 {
            x
        } else {
            x - rem + a
        };
        vstd::arithmetic::div_mod::lemma_mod_multiples_basic(x / a + 1, a);
        assert((x / a + 1) * a == a * (x / a) + a) by (nonlinear_arith);
        lemma_round_up_least(n as nat, align as nat, m as nat);
    }
    if rem == 0 {
        Some(n)
    } else {
        n.checked_add(align - rem)
    }
}

/// The alignment of a record that holds a part of each of two alignments is the larger one.
pub proof fn law_joint_align_is_larger(a: nat, b: nat)
    ensures
        joint_align(a, b) >= a,
        joint_align(a, b) >= b,
        joint_align(a, b) == a || joint_align(a, b) == b,
{
}

/// A part that is put behind a record starts on its alignment, behind the record and less than
/// its alignment away, and the record then ends where the part does.
pub proof fn law_extended_record_holds_both(
    first: Layout,
    next: Layout,
    res: Result<(Layout, usize), LayoutError>,
)
    requires
        next.alignment() > 0,
        call_ensures(Layout::extend, (&first, next), res),
    ensures
        res matches Ok((layout, at)) ==> {
            &&& first.bytes() <= at < first.bytes() + next.alignment()
            &&& at as nat % next.alignment() == 0
            &&& layout.bytes() == at + next.bytes()
            &&& layout.alignment() >= first.alignment() && layout.alignment() >= next.alignment()
            &&& layout.alignment() == first.alignment() || layout.alignment() == next.alignment()
        },
{
    lemma_round_up(first.bytes(), next.alignment());
}

/// A padded record ends at the first multiple of its alignment that is not inside the record.
pub proof fn law_padded_record_is_aligned(layout: Layout, res: Layout)
    requires
        layout.alignment() > 0,
        call_ensures(Layout::pad_to_align, (&layout,), res),
    ensures
        res.alignment() == layout.alignment(),
        layout.bytes() <= res.bytes() < layout.bytes() + layout.alignment(),
        res.bytes() % layout.alignment() == 0,
{
    lemma_round_up(layout.bytes(), layout.alignment());
}

} // verus!
