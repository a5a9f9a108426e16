use helios_rot::error::Error;
use helios_rot::ffi::{OsRotCerts, RawOsRotError};
use helios_rot::flexible::{alloc_flexible_struct, flexible_layout};
use helios_rot::image::ByteOrder;

fn certs(error: u32, chain_size: u32, chain: &[u8]) -> OsRotCerts {
    OsRotCerts { error: RawOsRotError(error), chain_size, chain: chain.to_vec() }
}

#[test]
fn fields_lie_at_their_offsets() {
    let certs = certs(0x0102_0304, 0x0506_0708, &[9, 10, 11, 12, 13]);
    let words = certs.to_words(ByteOrder::Little).unwrap();
    let bytes: Vec<u8> = words.iter().flat_map(|word| word.to_le_bytes()).collect();
    assert_eq!(bytes, [4, 3, 2, 1, 8, 7, 6, 5, 9, 10, 11, 12, 13, 0, 0, 0]);
    let words = certs.to_words(ByteOrder::Big).unwrap();
    let bytes: Vec<u8> = words.iter().flat_map(|word| word.to_be_bytes()).collect();
    assert_eq!(bytes, [1, 2, 3, 4, 5, 6, 7, 8, 9, 10, 11, 12, 13, 0, 0, 0]);
}

#[test]
fn buffers_fill_their_layout() {
    for items in [0u32, 1, 4, 5, 8] {
        let certs: Box<OsRotCerts> = alloc_flexible_struct(items).unwrap();
        let allocated = flexible_layout::<OsRotCerts>(items).unwrap();
        let words = certs.to_words(ByteOrder::Little).unwrap();
        assert_eq!(std::mem::size_of_val(words.as_slice()), allocated.size());
        assert_eq!(std::mem::align_of_val(words.as_slice()), allocated.align());
        assert_eq!(words[..2], [0, items]);
    }
}

#[test]
fn images_are_read_back() {
    for order in [ByteOrder::Little, ByteOrder::Big] {
        for len in 0..10usize {
            let chain: Vec<u8> = (1..=len as u8).collect();
            let certs = certs(3, 77, &chain);
            let words = certs.to_words(order).unwrap();
            let read = OsRotCerts::from_words(&words, len, order);
            assert_eq!(read.error, RawOsRotError(3));
            assert_eq!(read.chain_size, 77);
            assert_eq!(read.chain, chain);
        }
    }
}

#[test]
fn what_the_driver_wrote_is_read() {
    let certs = OsRotCerts::from_words(&[1, 2, 0x0403_0201, 0xffff_ff05], 5, ByteOrder::Little);
    assert_eq!(certs.error, RawOsRotError(1));
    assert_eq!(certs.chain_size, 2);
    assert_eq!(certs.chain, [1, 2, 3, 4, 5]);
}

#[test]
fn implausible_buffers_have_no_image() {
    let certs = certs(0, 0, &vec![0; 16_777_217]);
    assert!(matches!(
        certs.to_words(ByteOrder::Little),
        Err(Error::TooLarge { requested: 16_777_217 })
    ));
}
