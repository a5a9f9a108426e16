use helios_rot::error::Error;
use helios_rot::ffi::{OsRotCerts, RawOsRotError};
use helios_rot::flexible::{
    alloc_flexible_struct, flexible_layout, FlexibleArrayMember, HEADER_ALIGN, HEADER_SIZE,
    MAX_FLEXIBLE_BYTES,
};
use helios_rot::image::ByteOrder;
use helios_rot::layout::{Layout, LayoutError};
use std::mem::{align_of, align_of_val, size_of, size_of_val};

struct Flex {
    error: RawOsRotError,
    chain_size: u32,
    chain: Vec<u8>,
}

impl FlexibleArrayMember for Flex {
    type Item = u8;

    fn error_field(&self) -> u32 {
        self.error.0
    }

    fn count_field(&self) -> u32 {
        self.chain_size
    }

    fn items(&self) -> Vec<u8> {
        self.chain.clone()
    }

    fn zero() -> u8 {
        0
    }

    fn zeroed_item() -> u8 {
        0
    }

    fn assemble(error: u32, count: u32, items: Vec<u8>) -> Self {
        Flex { error: RawOsRotError(error), chain_size: count, chain: items }
    }
}

/// A structure whose items are wider than its header.
struct Wide {
    error: u32,
    count: u32,
    items: Vec<u64>,
}

impl FlexibleArrayMember for Wide {
    type Item = u64;

    fn error_field(&self) -> u32 {
        self.error
    }

    fn count_field(&self) -> u32 {
        self.count
    }

    fn items(&self) -> Vec<u64> {
        self.items.clone()
    }

    fn zero() -> u64 {
        0
    }

    fn zeroed_item() -> u64 {
        0
    }

    fn assemble(error: u32, count: u32, items: Vec<u64>) -> Self {
        Wide { error, count, items }
    }
}

struct Short {
    error: u32,
    count: u32,
    items: Vec<u16>,
}

impl FlexibleArrayMember for Short {
    type Item = u16;

    fn error_field(&self) -> u32 {
        self.error
    }

    fn count_field(&self) -> u32 {
        self.count
    }

    fn items(&self) -> Vec<u16> {
        self.items.clone()
    }

    fn zero() -> u16 {
        0
    }

    fn zeroed_item() -> u16 {
        0
    }

    fn assemble(error: u32, count: u32, items: Vec<u16>) -> Self {
        Short { error, count, items }
    }
}

#[test]
fn impl_flex_works() {
    let flex: Box<Flex> = alloc_flexible_struct(2).unwrap();
    assert_eq!(flex.error.0, 0);
    assert_eq!(flex.chain_size, 2);
    assert_eq!(flex.chain, [0u8; 2]);
}

#[test]
fn zero_capacity_is_valid() {
    let certs: Box<OsRotCerts> = alloc_flexible_struct(0).unwrap();
    assert_eq!(certs.chain_size, 0);
    assert_eq!(certs.chain.len(), 0);
}

#[test]
fn count_field_set_to_capacity() {
    let certs: Box<OsRotCerts> = alloc_flexible_struct(42).unwrap();
    assert_eq!(certs.chain_size, 42);
    assert_eq!(certs.chain.len(), 42);
}

#[test]
fn error_field_is_zeroed() {
    let certs: Box<OsRotCerts> = alloc_flexible_struct(8).unwrap();
    assert_eq!(certs.error.0, 0);
}

#[test]
fn tail_is_zeroed_and_writable() {
    let mut certs: Box<OsRotCerts> = alloc_flexible_struct(3).unwrap();
    assert_eq!(certs.chain, [0u8; 3]);
    certs.chain[1] = 0xAB;
    assert_eq!(certs.chain[1], 0xAB);
}

fn mock_kernel_fill(certs: &mut OsRotCerts, reported_size: u32) {
    let cap = certs.chain.len();
    certs.chain_size = reported_size;
    let to_write = (reported_size as usize).min(cap);
    for i in 0..to_write {
        certs.chain[i] = (i as u8).wrapping_add(1);
    }
}

#[test]
fn kernel_fill_within_capacity_is_sound() {
    let mut certs: Box<OsRotCerts> = alloc_flexible_struct(4).unwrap();
    mock_kernel_fill(&mut certs, 4);

    for (i, b) in certs.chain.iter().enumerate() {
        assert_eq!(*b, (i as u8).wrapping_add(1));
    }
}

/// `struct os_rot_certs` with a chain of `N` bytes.
#[allow(dead_code)]
struct Fields<const N: usize> {
    error: u32,
    chain_size: u32,
    chain: [u8; N],
}

fn layout_is_that_of<const N: usize>() {
    let certs: Box<OsRotCerts> = alloc_flexible_struct(N as u32).unwrap();
    let allocated = flexible_layout::<OsRotCerts>(N as u32).unwrap();
    assert_eq!(certs.chain.len(), N);
    assert_eq!(allocated.size(), size_of::<Fields<N>>());
    assert_eq!(allocated.align(), align_of::<Fields<N>>());

    // The error and count u32s must be at offsets 0 and 4, and the tail must start right
    // after them.
    let words = certs.to_words(ByteOrder::Little).unwrap();
    assert_eq!(size_of_val(words.as_slice()), allocated.size());
    assert_eq!(align_of_val(words.as_slice()), allocated.align());
    let filled = OsRotCerts {
        error: RawOsRotError(0x1111_1111),
        chain_size: 0x2222_2222,
        chain: vec![0x33; N],
    };
    let bytes: Vec<u8> =
        filled.to_words(ByteOrder::Little).unwrap().iter().flat_map(|w| w.to_le_bytes()).collect();
    assert_eq!(bytes[0..4], [0x11; 4]);
    assert_eq!(bytes[4..8], [0x22; 4]);
    assert_eq!(bytes[8..8 + N], [0x33; N]);
    assert_eq!(HEADER_SIZE, 8);
}

#[test]
fn layout_matches_c_struct() {
    layout_is_that_of::<0>();
    layout_is_that_of::<1>();
    layout_is_that_of::<4>();
    layout_is_that_of::<5>();
    layout_is_that_of::<8>();
}

#[test]
fn header_is_two_words() {
    let header = std::alloc::Layout::new::<[u32; 2]>();
    assert_eq!(header.size(), HEADER_SIZE);
    assert_eq!(header.align(), HEADER_ALIGN);
}

fn std_layout<T>(n: usize) -> std::alloc::Layout {
    let (layout, _) = std::alloc::Layout::new::<[u32; 2]>()
        .extend(std::alloc::Layout::array::<T>(n).unwrap())
        .unwrap();
    layout.pad_to_align()
}

#[test]
fn layouts_agree_with_std() {
    for n in [0u32, 1, 2, 3, 4, 5, 7, 8, 100, 1_000_001] {
        let bytes = flexible_layout::<OsRotCerts>(n).unwrap();
        assert_eq!(bytes.size(), std_layout::<u8>(n as usize).size());
        assert_eq!(bytes.align(), std_layout::<u8>(n as usize).align());
        let short = flexible_layout::<Short>(n).unwrap();
        assert_eq!(short.size(), std_layout::<u16>(n as usize).size());
        assert_eq!(short.align(), std_layout::<u16>(n as usize).align());
        let wide = flexible_layout::<Wide>(n).unwrap();
        assert_eq!(wide.size(), std_layout::<u64>(n as usize).size());
        assert_eq!(wide.align(), std_layout::<u64>(n as usize).align());
    }
}

#[test]
fn other_items_are_zeroed_too() {
    let wide = alloc_flexible_struct::<Wide>(3).unwrap();
    assert_eq!((wide.error, wide.count), (0, 3));
    assert_eq!(wide.items, [0u64; 3]);
    let short = alloc_flexible_struct::<Short>(1).unwrap();
    assert_eq!((short.error, short.count), (0, 1));
    assert_eq!(short.items, [0u16]);
}

#[test]
fn extend_pads_before_the_next_part() {
    let header = Layout::array::<u8>(5).unwrap();
    let next = Layout::array::<u32>(3).unwrap();
    let (layout, offset) = header.extend(next).unwrap();
    assert_eq!((layout.size(), layout.align(), offset), (20, 4, 8));
    let (layout, offset) = next.extend(header).unwrap();
    assert_eq!((layout.size(), layout.align(), offset), (17, 4, 12));
    assert_eq!(layout.pad_to_align().size(), 20);
}

#[test]
fn overlong_array_has_no_layout() {
    let most = isize::MAX as usize;
    assert_eq!(Layout::array::<u8>(most).unwrap().size(), most);
    assert_eq!(Layout::array::<u8>(most + 1), Err(LayoutError));
    assert_eq!(Layout::array::<u64>(most / 8 + 1), Err(LayoutError));
    assert_eq!(Layout::array::<u64>(usize::MAX), Err(LayoutError));
    let all = Layout::array::<u8>(most).unwrap();
    assert_eq!(all.extend(Layout::array::<u8>(1).unwrap()), Err(LayoutError));
    assert_eq!(Layout::array::<u32>(1).unwrap().extend(all), Err(LayoutError));
}

#[test]
fn largest_chain_is_not_refused() {
    let most = MAX_FLEXIBLE_BYTES as u32;
    assert_eq!(most, 16_777_216);
    assert_eq!(flexible_layout::<OsRotCerts>(most).unwrap().size(), 16_777_224);
    assert!(matches!(
        flexible_layout::<OsRotCerts>(most + 1),
        Err(Error::TooLarge { requested: 16_777_217 })
    ));
    assert!(matches!(
        alloc_flexible_struct::<OsRotCerts>(u32::MAX),
        Err(Error::TooLarge { requested: 4_294_967_295 })
    ));
    assert!(matches!(
        flexible_layout::<Wide>(2_097_153),
        Err(Error::TooLarge { requested: 16_777_224 })
    ));
}

#[derive(Clone, Copy)]
struct Nothing;

struct Counted {
    error: u32,
    count: u32,
    items: Vec<Nothing>,
}

impl FlexibleArrayMember for Counted {
    type Item = Nothing;

    fn error_field(&self) -> u32 {
        self.error
    }

    fn count_field(&self) -> u32 {
        self.count
    }

    fn items(&self) -> Vec<Nothing> {
        self.items.clone()
    }

    fn zero() -> Nothing {
        Nothing
    }

    fn zeroed_item() -> Nothing {
        Nothing
    }

    fn assemble(error: u32, count: u32, items: Vec<Nothing>) -> Self {
        Counted { error, count, items }
    }
}

#[test]
fn items_without_size_take_no_room() {
    let layout = flexible_layout::<Counted>(u32::MAX).unwrap();
    assert_eq!((layout.size(), layout.align()), (8, 4));
}

/// As many bytes as make an array of two billion overflow.
const PAGE: usize = 1 << 33;

struct Paged {
    error: u32,
    count: u32,
    items: Vec<[u8; PAGE]>,
}

impl FlexibleArrayMember for Paged {
    type Item = [u8; PAGE];

    fn error_field(&self) -> u32 {
        self.error
    }

    fn count_field(&self) -> u32 {
        self.count
    }

    fn items(&self) -> Vec<[u8; PAGE]> {
        self.items.clone()
    }

    fn zero() -> [u8; PAGE] {
        [0; PAGE]
    }

    fn zeroed_item() -> [u8; PAGE] {
        [0; PAGE]
    }

    fn assemble(error: u32, count: u32, items: Vec<[u8; PAGE]>) -> Self {
        Paged { error, count, items }
    }
}

#[test]
fn layout_overflow_is_told() {
    assert!(matches!(flexible_layout::<Paged>(1 << 31), Err(Error::LayoutOverflow)));
    assert!(matches!(flexible_layout::<Paged>(1), Err(Error::TooLarge { requested: PAGE })));
    assert_eq!(flexible_layout::<Paged>(0).unwrap().size(), 8);
}
