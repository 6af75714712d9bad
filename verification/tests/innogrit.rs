use ssd_flash_id::controllers::innogrit::{
    flash_id_command, parse_flash_id_response, DID_OFFSET, FID_ENTRY_SIZE, FID_OFFSET_5208,
    FID_OFFSET_5220, GRIT_MAGIC, INNO_MAGIC, MAX_BANKS_5220,
};
use ssd_flash_id::controllers::is_bank_empty;

#[test]
fn decodes_controller_did_as_four_digit_hex() {
    let mut buf = [0u8; 4096];
    buf[DID_OFFSET..DID_OFFSET + 2].copy_from_slice(&0x5236u16.to_le_bytes());
    buf[FID_OFFSET_5220..FID_OFFSET_5220 + FID_ENTRY_SIZE]
        .copy_from_slice(&[0x2C, 0xC3, 0x08, 0x32, 0xEA, 0x30]);

    let result = parse_flash_id_response(&buf);

    assert_eq!(result.controller_name, "IG5236");
    assert_eq!(result.banks.len(), 1);
    assert_eq!(result.banks[0].bank_num, 0);
    assert_eq!(
        result.banks[0].flash_id,
        [0x2C, 0xC3, 0x08, 0x32, 0xEA, 0x30, 0, 0]
    );
}

#[test]
fn small_device_ids_keep_leading_zero_digits() {
    let mut buf = [0u8; 4096];
    buf[DID_OFFSET..DID_OFFSET + 2].copy_from_slice(&0x00A5u16.to_le_bytes());
    let result = parse_flash_id_response(&buf);
    assert_eq!(result.controller_name, "IG00A5");
    assert!(result.banks.is_empty());
}

#[test]
fn ig5208_uses_older_table() {
    let mut buf = [0u8; 4096];
    buf[DID_OFFSET..DID_OFFSET + 2].copy_from_slice(&0x5208u16.to_le_bytes());
    // An entry in the newer table's place is not read for the IG5208.
    buf[FID_OFFSET_5220..FID_OFFSET_5220 + FID_ENTRY_SIZE].copy_from_slice(&[1, 2, 3, 4, 5, 6]);
    let third = FID_OFFSET_5208 + 3 * FID_ENTRY_SIZE;
    buf[third..third + FID_ENTRY_SIZE].copy_from_slice(&[0x98, 0x3C, 0x98, 0xB3, 0x76, 0xF2]);
    let last = FID_OFFSET_5208 + 31 * FID_ENTRY_SIZE;
    buf[last..last + FID_ENTRY_SIZE].copy_from_slice(&[0x45, 0x3C, 0x98, 0xB3, 0x76, 0x72]);

    let result = parse_flash_id_response(&buf);

    assert_eq!(result.controller_name, "IG5208");
    assert_eq!(result.banks.len(), 2);
    assert_eq!(result.banks[0].bank_num, 3);
    assert_eq!(result.banks[0].flash_id, [0x98, 0x3C, 0x98, 0xB3, 0x76, 0xF2, 0, 0]);
    assert_eq!(result.banks[1].bank_num, 31);
    assert_eq!(result.banks[1].flash_id, [0x45, 0x3C, 0x98, 0xB3, 0x76, 0x72, 0, 0]);
}

#[test]
fn erased_entries_are_skipped_and_banks_keep_their_numbers() {
    let mut buf = [0xFFu8; 4096];
    buf[DID_OFFSET..DID_OFFSET + 2].copy_from_slice(&0x5266u16.to_le_bytes());
    let fifth = FID_OFFSET_5220 + 5 * FID_ENTRY_SIZE;
    buf[fifth..fifth + FID_ENTRY_SIZE].copy_from_slice(&[0x89, 0xD3, 0xAC, 0x32, 0xC6, 0x00]);
    let last = FID_OFFSET_5220 + (MAX_BANKS_5220 - 1) * FID_ENTRY_SIZE;
    buf[last..last + FID_ENTRY_SIZE].copy_from_slice(&[0, 0, 0, 0, 0, 0]);
    let past = FID_OFFSET_5220 + MAX_BANKS_5220 * FID_ENTRY_SIZE;
    buf[past..past + FID_ENTRY_SIZE].copy_from_slice(&[0x2C, 1, 2, 3, 4, 5]);

    let result = parse_flash_id_response(&buf);

    assert_eq!(result.controller_name, "IG5266");
    assert_eq!(result.banks.len(), 1);
    assert_eq!(result.banks[0].bank_num, 5);
    assert_eq!(result.banks[0].flash_id, [0x89, 0xD3, 0xAC, 0x32, 0xC6, 0x00, 0, 0]);
}

#[test]
fn empty_entries_are_all_zero_or_all_erased() {
    assert!(is_bank_empty(&[0, 0, 0, 0, 0, 0]));
    assert!(is_bank_empty(&[0xFF, 0xFF, 0xFF, 0xFF, 0xFF, 0xFF]));
    assert!(!is_bank_empty(&[0xFF, 0xFF, 0x00, 0xFF, 0xFF, 0xFF]));
    assert!(!is_bank_empty(&[0x2C, 0, 0, 0, 0, 0]));
}

#[test]
fn flash_id_command_carries_signature() {
    let cmd = flash_id_command();
    assert_eq!(cmd.opcode, 0xF2);
    assert_eq!(cmd.nsid, 0);
    assert_eq!(cmd.cdws, [0x400, 0, 0, 0, GRIT_MAGIC, INNO_MAGIC]);
    assert_eq!(&GRIT_MAGIC.to_le_bytes(), b"GRIT");
    assert_eq!(&INNO_MAGIC.to_le_bytes(), b"INNO");
    assert_eq!(cmd.data_len, 4096);
}
