use pico_usb_console::hex::{hex_encode_upper, serial_number};
use pico_usb_console::packets::{
    ERASE, LINE_END, REPORT_BOTTOM, REPORT_END, REPORT_RULE, REPORT_TITLE, REPORT_TOP,
};
use pico_usb_console::text::{BANNER, DESCRIPTOR_UNITS, PACKET_SIZE, PRODUCT_NAME};

#[test]
fn every_byte_becomes_two_upper_case_digits() {
    let mut out = [0u8; 8];
    hex_encode_upper(&[0x00, 0x9a, 0xff, 0x1e], &mut out);
    assert_eq!(&out, b"009AFF1E");
}

#[test]
fn hex_digits_agree_with_format_for_every_byte() {
    for b in 0..=255u8 {
        let mut out = [0u8; 2];
        hex_encode_upper(&[b], &mut out);
        assert_eq!(out.as_slice(), format!("{:02X}", b).as_bytes());
    }
}

#[test]
fn bytes_behind_the_digits_stay() {
    let mut out = *b"......";
    hex_encode_upper(&[0xab], &mut out);
    assert_eq!(&out, b"AB....");
    hex_encode_upper(&[], &mut out);
    assert_eq!(&out, b"AB....");
}

#[test]
fn serial_number_is_the_flash_id() {
    let mut buf = [0u8; 16];
    let uid = [0xE6, 0x60, 0x58, 0x38, 0x83, 0x1B, 0x7C, 0x2D];
    let serial = serial_number(&uid, &mut buf);
    assert_eq!(serial, "E6605838831B7C2D");
    assert_eq!(u64::from_str_radix(serial, 16), Ok(u64::from_be_bytes(uid)));
}

#[test]
fn different_flash_ids_have_different_serial_numbers() {
    let (mut a, mut b) = ([0u8; 16], [0u8; 16]);
    let first = serial_number(&[0, 0, 0, 0, 0, 0, 0, 1], &mut a);
    let second = serial_number(&[0, 0, 0, 0, 0, 0, 0, 16], &mut b);
    assert_eq!(first, "0000000000000001");
    assert_eq!(second, "0000000000000010");
}

#[test]
fn product_name_and_banner_keep_their_limits() {
    assert_eq!(PRODUCT_NAME, "Pico USB Console");
    assert_eq!(BANNER.as_bytes(), b"[Pico USB Console - escribe 'help']\r\n");
    assert!(PRODUCT_NAME.len() <= DESCRIPTOR_UNITS);
    assert!(BANNER.len() <= PACKET_SIZE);
}

#[test]
fn fixed_packets_have_their_bytes() {
    assert_eq!(LINE_END.as_bytes(), b"\r\n");
    assert_eq!(ERASE.as_bytes(), b" \x08");
    assert_eq!(REPORT_END.as_bytes(), b"Sistema operando normalmente.\r\n\r\n");
    assert_eq!(REPORT_TOP.len(), 40 * 3 + 2);
    assert_eq!(REPORT_BOTTOM.len(), 40 * 3 + 2);
    assert_eq!(REPORT_RULE.len(), 40 * 3 + 2);
    assert!(REPORT_TITLE.contains("!! PANIC EN BOOT ANTERIOR !!"));
}
