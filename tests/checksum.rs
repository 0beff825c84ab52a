use uefi_net::ip;

const SAMPLE: [u8; 64] = [
    8, 0, 193, 180, 0, 18, 3, 33, 148, 17, 74, 103, 0, 0, 0, 0, 138, 204, 11, 0, 0, 0, 0, 0, 16,
    17, 18, 19, 20, 21, 22, 23, 24, 25, 26, 27, 28, 29, 30, 31, 32, 33, 34, 35, 36, 37, 38, 39, 40,
    41, 42, 43, 44, 45, 46, 47, 48, 49, 50, 51, 52, 53, 54, 55,
];

#[test]
fn checksum() {
    let data = SAMPLE;
    let result = ip::checksum(&data);
    assert_eq!(64, data.len());
    assert_eq!(0, result);
}

#[test]
fn compute_checksum() {
    let data = SAMPLE;
    let result = ip::compute_checksum(&data);
    assert_eq!(64, data.len());
    assert_eq!(0, result);
}

#[test]
fn checksum_of_empty_buffer_is_all_ones() {
    assert_eq!(0xffff, ip::checksum(&[]));
}

#[test]
fn checksum_pads_an_odd_trailing_byte() {
    // 0x0102 + 0x0300 = 0x0402, complemented.
    assert_eq!(!0x0402u16, ip::checksum(&[1, 2, 3]));
}

#[test]
fn checksum_folds_carries() {
    // 0xffff + 0x0001 = 0x10000, folded to 0x0001, complemented.
    assert_eq!(0xfffe, ip::checksum(&[0xff, 0xff, 0x00, 0x01]));
}

#[test]
fn filled_checksum_field_makes_buffer_valid() {
    let mut data = SAMPLE;
    data[2] = 0;
    data[3] = 0;
    let c = ip::checksum(&data);
    assert_eq!(c, 0xc1b4);
    data[2] = (c >> 8) as u8;
    data[3] = c as u8;
    assert_eq!(0, ip::checksum(&data));
    // Refilling a valid buffer gives the same field and stays valid.
    let mut again = data;
    again[2] = 0;
    again[3] = 0;
    let c2 = ip::checksum(&again);
    assert_eq!(c2, c);
    assert_eq!(0, ip::checksum(&data));
}
