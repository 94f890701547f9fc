use il2cpp_dump::output::bytes::{
    ascii_preview, bytes_to_base64, bytes_to_hex, bytes_to_hex_preview, format_hex_dump,
};

#[test]
fn hex_of_bytes() {
    assert_eq!(bytes_to_hex(&[0x00, 0xab, 0x1f]), "00AB1F");
    assert_eq!(bytes_to_hex(&[]), "");
}

#[test]
fn different_bytes_have_different_hex() {
    let all: Vec<u8> = (0..=255).collect();
    for a in &all {
        assert_eq!(u8::from_str_radix(&bytes_to_hex(&[*a]), 16).ok(), Some(*a));
    }
    assert_ne!(bytes_to_hex(&[1, 2]), bytes_to_hex(&[2, 1]));
}

#[test]
fn hex_previews_are_cut() {
    assert_eq!(bytes_to_hex_preview(&[1, 2], 2), "0102");
    assert_eq!(bytes_to_hex_preview(&[1, 2, 3], 2), "0102...");
    assert_eq!(bytes_to_hex_preview(&[1], 0), "...");
}

#[test]
fn base64_of_bytes() {
    assert_eq!(bytes_to_base64(b""), "");
    assert_eq!(bytes_to_base64(b"f"), "Zg==");
    assert_eq!(bytes_to_base64(b"fo"), "Zm8=");
    assert_eq!(bytes_to_base64(b"foo"), "Zm9v");
    assert_eq!(bytes_to_base64(b"foobar"), "Zm9vYmFy");
    assert_eq!(bytes_to_base64(&[0xFB, 0xFF]), "+/8=");
}

#[test]
fn base64_can_be_read_back() {
    let table = "ABCDEFGHIJKLMNOPQRSTUVWXYZabcdefghijklmnopqrstuvwxyz0123456789+/";
    for len in 0..=7usize {
        let bytes: Vec<u8> = (0..len).map(|i| (i * 37 + 200) as u8).collect();
        let text = bytes_to_base64(&bytes);
        let mut bits: Vec<bool> = Vec::new();
        for c in text.chars().filter(|c| *c != '=') {
            let v = table.find(c).unwrap();
            bits.extend((0..6).rev().map(|k| (v >> k) & 1 == 1));
        }
        let back: Vec<u8> = bits
            .chunks_exact(8)
            .map(|b| b.iter().fold(0u8, |v, bit| v * 2 + *bit as u8))
            .collect();
        assert_eq!(back, bytes);
    }
}

#[test]
fn hex_dumps_have_an_address_on_each_line() {
    let bytes: Vec<u8> = (0..18).collect();
    assert_eq!(
        format_hex_dump(&bytes, 16),
        "0000: 00 01 02 03 04 05 06 07 08 09 0A 0B 0C 0D 0E 0F\n0010: 10 11\n"
    );
    assert_eq!(format_hex_dump(&[7, 8], 0), "0000: 07\n0001: 08\n");
    assert_eq!(format_hex_dump(&[], 4), "");
}

#[test]
fn ascii_previews_hide_what_cannot_be_printed() {
    assert_eq!(ascii_preview(b"Hi\x00~\x7f!", 5), "Hi.~.");
}
