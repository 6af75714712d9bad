use ssd_flash_id::ata::{ata_string_trim, parse_ata_identify};
use ssd_flash_id::nvme::{admin_vendor_command_format_in_spec, parse_identify};
use ssd_flash_id::text::ascii_trim;

fn put_ata_string(data: &mut [u8], offset: usize, len: usize, text: &str) {
    let mut field = vec![b' '; len];
    field[..text.len()].copy_from_slice(text.as_bytes());
    for pair in 0..len / 2 {
        data[offset + 2 * pair] = field[2 * pair + 1];
        data[offset + 2 * pair + 1] = field[2 * pair];
    }
}

#[test]
fn parses_nvme_identify_controller() {
    let mut data = [0u8; 4096];
    data[0..2].copy_from_slice(&0x2646u16.to_le_bytes());
    data[2..4].copy_from_slice(&0x2647u16.to_le_bytes());
    let serial = b"50026B76  ";
    data[4..14].copy_from_slice(serial);
    for b in &mut data[14..24] {
        *b = b' ';
    }
    let model = b"KINGSTON SNV2S1000G";
    data[24..24 + model.len()].copy_from_slice(model);
    for b in &mut data[24 + model.len()..64] {
        *b = b' ';
    }
    data[64..72].copy_from_slice(b"SBM02106");

    let info = parse_identify(&data);

    assert_eq!(info.vid, 0x2646);
    assert_eq!(info.ssvid, 0x2647);
    assert_eq!(info.serial, "50026B76");
    assert_eq!(info.model, "KINGSTON SNV2S1000G");
    assert_eq!(info.firmware, "SBM02106");
}

#[test]
fn parses_ata_identify_with_swapped_words() {
    let mut data = [0u8; 512];
    put_ata_string(&mut data, 20, 20, "S4X1NF0M123456");
    put_ata_string(&mut data, 46, 8, "EXM04B6Q");
    put_ata_string(&mut data, 54, 40, "Samsung SSD 860 EVO 500GB");

    let id = parse_ata_identify(&data);

    assert_eq!(id.serial, "S4X1NF0M123456");
    assert_eq!(id.firmware, "EXM04B6Q");
    assert_eq!(id.model, "Samsung SSD 860 EVO 500GB");
}

#[test]
fn unprintable_bytes_show_as_spaces_and_edges_are_trimmed() {
    assert_eq!(ascii_trim(&[0, b'A', 0x7F, b'B', b' ', 0xFF]), "A B");
    assert_eq!(ascii_trim(&[b' ', b' ']), "");
    assert_eq!(ascii_trim(&[]), "");
    assert_eq!(ascii_trim(b"~!x"), "~!x");
}

#[test]
fn ata_string_swaps_each_pair_and_drops_an_odd_byte() {
    assert_eq!(ata_string_trim(b"BADC"), "ABCD");
    assert_eq!(ata_string_trim(b"BADCE"), "ABCD");
    assert_eq!(ata_string_trim(b" A"), "A");
}

#[test]
fn vendor_command_format_bit_is_bit_zero_of_byte_264() {
    let mut data = [0u8; 4096];
    assert!(!admin_vendor_command_format_in_spec(&data));
    data[264] = 0x01;
    assert!(admin_vendor_command_format_in_spec(&data));
    data[264] = 0xFE;
    assert!(!admin_vendor_command_format_in_spec(&data));
}

#[test]
fn trimming_field_text_again_changes_nothing() {
    let raw = [0u8, b' ', b'A', 0x80, b'B', b' ', b'\t'];
    let once = ascii_trim(&raw);
    assert_eq!(once, "A B");
    assert_eq!(ascii_trim(once.as_bytes()), once);
}
