use flowly_mpegts::mpegts::crc32::{crc32, Crc32};
use flowly_mpegts::mpegts::wire::{
    copy_range, get_u16, get_u24, get_u32, get_u40, get_u48, put_bytes, put_slice, put_u16,
    put_u24, put_u32, put_u40, put_u48,
};

#[test]
fn crc32_of_check_string() {
    assert_eq!(crc32(b"123456789"), 0x0376_E6E7);
    assert_eq!(crc32(&[]), 0xFFFF_FFFF);
}

#[test]
fn crc32_is_computed_piece_by_piece() {
    let mut crc = Crc32::new();
    crc.update(b"1234");
    crc.update(b"");
    crc.update(b"56789");
    assert_eq!(crc.value(), 0x0376_E6E7);
}

#[test]
fn crc32_of_data_and_its_checksum_is_zero() {
    let mut data = b"transport stream".to_vec();
    let sum = crc32(&data);
    put_u32(&mut data, sum);
    assert_eq!(crc32(&data), 0);
}

#[test]
fn integers_are_written_most_significant_byte_first() {
    let mut out = vec![0xAA];
    put_u16(&mut out, 0x0102);
    put_u24(&mut out, 0x0A0B0C);
    put_u32(&mut out, 0xDEADBEEF);
    put_u40(&mut out, 0x01_0203_0405);
    put_u48(&mut out, 0x0102_0304_0506);
    assert_eq!(
        out,
        vec![
            0xAA, 1, 2, 0x0A, 0x0B, 0x0C, 0xDE, 0xAD, 0xBE, 0xEF, 1, 2, 3, 4, 5, 1, 2, 3, 4, 5, 6
        ]
    );
    assert_eq!(get_u16(&out, 1), 0x0102);
    assert_eq!(get_u24(&out, 3), 0x0A0B0C);
    assert_eq!(get_u32(&out, 6), 0xDEADBEEF);
    assert_eq!(get_u40(&out, 10), 0x01_0203_0405);
    assert_eq!(get_u48(&out, 15), 0x0102_0304_0506);
}

#[test]
fn wide_integers_are_cut_to_their_width() {
    let mut out = Vec::new();
    put_u24(&mut out, 0xFF01_0203);
    put_u40(&mut out, 0xFFFF_FF01_0203_0405);
    put_u48(&mut out, 0xFFFF_0102_0304_0506);
    assert_eq!(out, vec![1, 2, 3, 1, 2, 3, 4, 5, 1, 2, 3, 4, 5, 6]);
}

#[test]
fn bytes_are_appended_and_copied() {
    let mut out = vec![1];
    put_slice(&mut out, &[2, 3]);
    put_bytes(&mut out, 0xFF, 3);
    put_bytes(&mut out, 0, 0);
    assert_eq!(out, vec![1, 2, 3, 0xFF, 0xFF, 0xFF]);
    assert_eq!(copy_range(&out, 1, 4), vec![2, 3, 0xFF]);
    assert_eq!(copy_range(&out, 2, 2), Vec::<u8>::new());
}
