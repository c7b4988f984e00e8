use acpi_tables::aml::{
    aml_byte, aml_dword, aml_qword, aml_word, append_buffer, append_device, append_eisa_name,
    append_io, append_method, append_name, append_resource_template, pkg_length,
};
use acpi_tables::hex::{decode_hex, is_hex_text};
use acpi_tables::le::{push_u16, push_u32, push_u64};
use acpi_tables::sdt::Sdt;

fn decode_pkg_length(b: &[u8]) -> (usize, usize) {
    let follow = (b[0] >> 6) as usize;
    if follow == 0 {
        return ((b[0] & 0x3f) as usize, 1);
    }
    let mut v = (b[0] & 0x0f) as usize;
    for i in 0..follow {
        v |= (b[1 + i] as usize) << (4 + 8 * i);
    }
    (v, follow + 1)
}

#[test]
fn pkg_length_forms() {
    assert_eq!(pkg_length(0, true), vec![1]);
    assert_eq!(pkg_length(62, true), vec![63]);
    assert_eq!(pkg_length(62, false), vec![62]);
    assert_eq!(pkg_length(63, true), vec![0x41, 0x04]);
    assert_eq!(pkg_length(4093, true), vec![0x4f, 0xff]);
    assert_eq!(pkg_length(4094, true), vec![0x81, 0x00, 0x01]);
    assert_eq!(pkg_length(1048572, true), vec![0x8f, 0xff, 0xff]);
    assert_eq!(pkg_length(1048573, true), vec![0xc1, 0x00, 0x00, 0x01]);
}

#[test]
fn pkg_length_round_trip() {
    for len in [0usize, 1, 61, 62, 63, 64, 300, 4093, 4094, 5000, 1048572, 1048573, 0x0fff_fff0] {
        for include_self in [false, true] {
            let b = pkg_length(len, include_self);
            let (value, size) = decode_pkg_length(&b);
            assert_eq!(size, b.len());
            assert_eq!(value, len + if include_self { size } else { 0 });
        }
    }
}

#[test]
fn integer_constants() {
    let mut s = Vec::new();
    aml_byte(&mut s, 0);
    aml_byte(&mut s, 1);
    aml_byte(&mut s, 0x0f);
    assert_eq!(s, vec![0x00, 0x01, 0x0a, 0x0f]);
    let mut s = Vec::new();
    aml_word(&mut s, 0x12);
    aml_word(&mut s, 0x1234);
    assert_eq!(s, vec![0x0a, 0x12, 0x0b, 0x34, 0x12]);
    let mut s = Vec::new();
    aml_dword(&mut s, 0x001f_0002);
    aml_dword(&mut s, 0x100);
    assert_eq!(s, vec![0x0c, 0x02, 0x00, 0x1f, 0x00, 0x0b, 0x00, 0x01]);
    let mut s = Vec::new();
    aml_qword(&mut s, 0x1_0000_0000);
    aml_qword(&mut s, 1);
    assert_eq!(s, vec![0x0e, 0, 0, 0, 0, 1, 0, 0, 0, 0x01]);
}

#[test]
fn little_endian_bytes() {
    let mut s = Vec::new();
    push_u16(&mut s, 0x1234);
    push_u32(&mut s, 0x1234_5678);
    push_u64(&mut s, 0x0102_0304_0506_0708);
    assert_eq!(
        s,
        vec![0x34, 0x12, 0x78, 0x56, 0x34, 0x12, 8, 7, 6, 5, 4, 3, 2, 1]
    );
}

#[test]
fn eisa_names() {
    let mut s = Vec::new();
    append_eisa_name(&mut s, b"PNP0303");
    assert_eq!(s, vec![0x0c, 0x41, 0xd0, 0x03, 0x03]);
    let mut s = Vec::new();
    append_eisa_name(&mut s, b"PNP0b00");
    assert_eq!(s, vec![0x0c, 0x41, 0xd0, 0x0b, 0x00]);
}

#[test]
fn terms() {
    let mut s = Vec::new();
    append_name(&mut s, b"_STA", &[0x0a, 0x0f]);
    assert_eq!(s, vec![0x08, b'_', b'S', b'T', b'A', 0x0a, 0x0f]);

    let mut s = Vec::new();
    append_method(&mut s, b"_E01", 0, false, &[]);
    assert_eq!(s, vec![0x14, 0x06, b'_', b'E', b'0', b'1', 0x00]);
    let mut s = Vec::new();
    append_method(&mut s, b"_OST", 3, true, &[]);
    assert_eq!(s[6], 0x0b);

    let mut s = Vec::new();
    append_device(&mut s, b"SFA_", &[0x08]);
    assert_eq!(s, vec![0x5b, 0x82, 0x06, b'S', b'F', b'A', b'_', 0x08]);

    let mut s = Vec::new();
    append_io(&mut s, 0x3f8, 0x3f8, 0, 8);
    assert_eq!(s, vec![0x47, 0x01, 0xf8, 0x03, 0xf8, 0x03, 0x00, 0x08]);

    let mut s = Vec::new();
    append_buffer(&mut s, &[1, 2, 3]);
    assert_eq!(s, vec![0x11, 0x06, 0x0a, 0x03, 1, 2, 3]);

    let mut s = Vec::new();
    append_resource_template(&mut s, &[0x22, 0x02, 0x00]);
    assert_eq!(s, vec![0x11, 0x08, 0x0a, 0x05, 0x22, 0x02, 0x00, 0x79, 0x00]);
}

#[test]
fn hex_text() {
    assert_eq!(decode_hex("0a 1B\nff\r\t"), vec![0x0a, 0x1b, 0xff]);
    assert_eq!(decode_hex(""), Vec::<u8>::new());
    assert!(is_hex_text(" 00 11 "));
    assert!(!is_hex_text("abc"));
    assert!(!is_hex_text("0g"));
}

#[test]
fn hex_round_trip() {
    let bytes: Vec<u8> = (0..=255u8).collect();
    let mut text = String::new();
    for (i, b) in bytes.iter().enumerate() {
        let pair = if i % 2 == 0 { format!("{:02x}", b) } else { format!("{:02X}", b) };
        let mut chars = pair.chars();
        text.push(chars.next().unwrap());
        // Whitespace may stand anywhere, even inside a pair.
        match i % 5 {
            0 => text.push(' '),
            1 => text.push('\n'),
            2 => text.push('\t'),
            3 => text.push('\r'),
            _ => text.push('\x0c'),
        }
        text.push(chars.next().unwrap());
    }
    assert!(is_hex_text(&text));
    assert_eq!(decode_hex(&text), bytes);
}

fn sum(b: &[u8]) -> u8 {
    b.iter().fold(0u8, |a, x| a.wrapping_add(*x))
}

#[test]
fn sdt_keeps_its_checksum() {
    let mut sdt = Sdt::new(*b"TEST", 40, 2, *b"OEMID ", *b"TABLEID ", 7);
    assert_eq!(sdt.len(), 40);
    assert_eq!(sum(sdt.as_slice()), 0);
    assert_eq!(&sdt.as_slice()[0..4], b"TEST");
    assert_eq!(&sdt.as_slice()[4..8], &[40, 0, 0, 0]);
    assert_eq!(sdt.as_slice()[8], 2);
    assert_eq!(&sdt.as_slice()[10..16], b"OEMID ");
    assert_eq!(&sdt.as_slice()[28..32], b"RVAT");
    sdt.write_u32(36, 0xdead_beef);
    assert_eq!(sum(sdt.as_slice()), 0);
    assert_eq!(&sdt.as_slice()[36..40], &[0xef, 0xbe, 0xad, 0xde]);
    sdt.write_bytes(20, &[9, 9]);
    assert_eq!(sum(sdt.as_slice()), 0);
    sdt.append(&[1, 2, 3, 4, 5]);
    assert_eq!(sdt.len(), 45);
    assert_eq!(&sdt.as_slice()[4..8], &[45, 0, 0, 0]);
    assert_eq!(&sdt.as_slice()[40..45], &[1, 2, 3, 4, 5]);
    assert_eq!(sum(sdt.as_slice()), 0);
}
